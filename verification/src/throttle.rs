//! Throttle slew limiter: keys set a target, and the applied duty walks
//! toward it one percent at a time. Arming snaps the applied duty to the
//! target: the slew is for changes while running.

use vstd::prelude::*;

verus! {

/// Drive ticks per percent: 50 ms at 6 kHz.
pub const STEP_TICKS: u32 = 300;

/// Below this battery sample an upward slew holds, about 7.3 V.
pub const SAG_HOLD_FLOOR_RAW: u16 = 973;

/// Ticks per percent of an applied duty.
pub open spec fn ticks_per_step(applied: u8) -> int {
    if applied >= 85 {
        3 * STEP_TICKS
    } else if applied >= 70 {
        2 * STEP_TICKS
    } else {
        STEP_TICKS as int
    }
}

/// Ticks per percent of an applied duty: slower where the acceleration
/// power lives.
pub fn step_ticks_for(applied: u8) -> (r: u32)
    ensures
        r == ticks_per_step(applied),
{
    if applied >= 85 {
        STEP_TICKS * 3
    } else if applied >= 70 {
        STEP_TICKS * 2
    } else {
        STEP_TICKS
    }
}

/// One percent toward the target.
pub open spec fn stepped(applied: int, target: int) -> int {
    if applied < target {
        applied + 1
    } else if applied > target {
        applied - 1
    } else {
        applied
    }
}

/// Moves `applied` one percent toward `target`.
pub fn step(applied: u8, target: u8) -> (r: u8)
    ensures
        r == stepped(applied as int, target as int),
{
    if applied < target {
        applied + 1
    } else if applied > target {
        applied - 1
    } else {
        applied
    }
}

/// One percent toward the target, except upward on a low battery.
pub open spec fn stepped_sag_aware(applied: int, target: int, vbat_raw: u16) -> int {
    if applied < target && vbat_raw < SAG_HOLD_FLOOR_RAW {
        applied
    } else {
        stepped(applied, target)
    }
}

/// Moves `applied` one percent toward `target`; on a low battery an upward
/// move holds, and a downward one proceeds.
pub fn step_sag_aware(applied: u8, target: u8, vbat_raw: u16) -> (r: u8)
    ensures
        r == stepped_sag_aware(applied as int, target as int, vbat_raw),
{
    if applied < target && vbat_raw < SAG_HOLD_FLOOR_RAW {
        applied
    } else {
        step(applied, target)
    }
}

/// A slewed throttle, percent.
#[derive(Debug, Clone, Copy, PartialEq, Eq, Structural)]
pub struct Slew {
    /// The duty in force.
    pub applied: u8,
    /// Where it should end up.
    pub target: u8,
}

impl Slew {
    /// A throttle at rest.
    pub fn new(pct: u8) -> (r: Self)
        ensures
            r == (Slew { applied: pct, target: pct }),
    {
        Self { applied: pct, target: pct }
    }

    /// Sets where the throttle should end up.
    pub fn set_target(&mut self, pct: u8)
        ensures
            *final(self) == (Slew { target: pct, ..*old(self) }),
    {
        self.target = pct;
    }

    /// Snaps at arm: no slewing across a disarm.
    pub fn snap(&mut self, pct: u8)
        ensures
            *final(self) == (Slew { applied: pct, target: pct }),
    {
        self.applied = pct;
        self.target = pct;
    }

    /// The throttle after a drive tick.
    pub open spec fn ticked(self, tick: u32) -> Slew {
        if tick % STEP_TICKS == 0 {
            Slew { applied: stepped(self.applied as int, self.target as int) as u8, ..self }
        } else {
            self
        }
    }

    /// One drive tick: a step on every multiple of [`STEP_TICKS`].
    pub fn tick(&mut self, tick: u32)
        ensures
            *final(self) == old(self).ticked(tick),
    {
        if tick % STEP_TICKS != 0 {
            return;
        }
        self.applied = step(self.applied, self.target);
    }

    /// The throttle after `n` drive ticks from count `from` on.
    pub open spec fn ticked_n(self, from: u32, n: nat) -> Slew
        decreases n,
    {
        if n == 0 {
            self
        } else {
            self.ticked_n(from, (n - 1) as nat).ticked((from + n - 1) as u32)
        }
    }
}

/// The duty after `n` steps.
pub open spec fn stepped_n(applied: int, target: int, n: nat) -> int
    decreases n,
{
    if n == 0 {
        applied
    } else {
        stepped(stepped_n(applied, target, (n - 1) as nat), target)
    }
}

/// Steps walk straight to the target and stay there: `n` of them cover a
/// distance of `n` percent, never past it.
pub proof fn law_steps_converge(applied: int, target: int, n: nat)
    ensures
        applied <= target ==> stepped_n(applied, target, n) == if applied + n <= target {
            applied + n
        } else {
            target
        },
        target <= applied ==> stepped_n(applied, target, n) == if applied - n >= target {
            applied - n
        } else {
            target
        },
    decreases n,
{
    if n > 0 {
        law_steps_converge(applied, target, (n - 1) as nat);
    }
}

/// On a low battery the duty never rises, and it always may fall.
pub proof fn law_low_battery_never_raises(applied: int, target: int, vbat_raw: u16)
    requires
        vbat_raw < SAG_HOLD_FLOOR_RAW,
    ensures
        stepped_sag_aware(applied, target, vbat_raw) <= applied,
        target < applied ==> stepped_sag_aware(applied, target, vbat_raw) == applied - 1,
{
}

/// Ticks move the throttle once per [`STEP_TICKS`]: after `n` ticks it has
/// taken as many steps as there were multiples among them.
pub proof fn law_ticks_step_at_the_cadence(s: Slew, from: u32, n: nat)
    requires
        from + n <= u32::MAX,
    ensures
        s.ticked_n(from, n) == (Slew {
            applied: stepped_n(s.applied as int, s.target as int, multiples(from, n)) as u8,
            ..s
        }),
    decreases n,
{
    law_steps_converge(s.applied as int, s.target as int, multiples(from, n));
    if n > 0 {
        law_ticks_step_at_the_cadence(s, from, (n - 1) as nat);
        law_steps_converge(s.applied as int, s.target as int, multiples(from, (n - 1) as nat));
    }
}

/// Multiples of [`STEP_TICKS`] among `n` counts from `from` on.
pub open spec fn multiples(from: u32, n: nat) -> nat
    decreases n,
{
    if n == 0 {
        0
    } else {
        multiples(from, (n - 1) as nat) + (if (from + n - 1) as u32 % STEP_TICKS == 0 {
            1nat
        } else {
            0nat
        })
    }
}

/// A percent takes 300 ticks below a duty of 70, 600 below 85, and 900 from
/// there on.
pub proof fn law_steps_slow_down(applied: u8)
    ensures
        applied <= 69 ==> ticks_per_step(applied) == 300,
        70 <= applied <= 84 ==> ticks_per_step(applied) == 600,
        applied >= 85 ==> ticks_per_step(applied) == 900,
{
}

/// A healthy battery, from 973 up, steps as any other; a lower one only down.
pub proof fn law_healthy_battery_steps(applied: int, target: int, vbat_raw: u16)
    ensures
        vbat_raw >= 973 && applied < target ==> stepped_sag_aware(applied, target, vbat_raw)
            == applied + 1,
        vbat_raw <= 972 && applied < target ==> stepped_sag_aware(applied, target, vbat_raw)
            == applied,
        applied > target ==> stepped_sag_aware(applied, target, vbat_raw) == applied - 1,
        stepped_sag_aware(target, target, vbat_raw) == target,
{
}

/// Every 300th tick takes a step, and no other does.
pub proof fn law_every_300th_tick_steps(s: Slew, tick: u32)
    ensures
        tick % 300 != 0 ==> s.ticked(tick) == s,
        tick % 300 == 0 ==> {
            &&& s.ticked(tick).target == s.target
            &&& s.applied < s.target ==> s.ticked(tick).applied == s.applied + 1
            &&& s.applied > s.target ==> s.ticked(tick).applied == s.applied - 1
            &&& s.applied == s.target ==> s.ticked(tick) == s
        },
{
}

} // verus!

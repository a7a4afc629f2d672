//! Bookkeeping of the edge buffer's halves: which half is written, when a
//! pair of revolutions completes, and where a sector boundary is filed. The
//! buffers themselves stay with the caller.

use vstd::prelude::*;

verus! {

/// The half-flip state.
#[derive(Debug, Clone, Copy, PartialEq, Eq, Structural)]
pub struct EdgeHalves {
    /// Which revolution of the pair is in progress, 0 or 1.
    pub rev_phase: u8,
    /// Which half is written, 0 or 1.
    pub active_half: u8,
    /// 10 µs tick at which the active pair started.
    pub half_start_tick: u32,
    /// Flips are suppressed, so that a half can be dumped again.
    pub freeze: bool,
}

/// What the caller does after a flip: clear the new half, and set slot 0 of
/// both halves.
#[derive(Debug, Clone, Copy, PartialEq, Eq, Structural)]
pub struct FlipPlan {
    /// The half that just completed.
    pub old_active: usize,
    /// The half written from now on.
    pub new_active: usize,
    /// Start of the completed pair.
    pub old_half_start: u32,
}

/// `x` with its lowest bit inverted.
pub open spec fn flipped(x: u8) -> u8 {
    if x % 2 == 0 {
        (x + 1) as u8
    } else {
        (x - 1) as u8
    }
}

fn flip(x: u8) -> (r: u8)
    ensures
        r == flipped(x),
{
    if x % 2 == 0 {
        x + 1
    } else {
        x - 1
    }
}

impl EdgeHalves {
    /// Both phases are 0 or 1.
    pub open spec fn wf(self) -> bool {
        self.rev_phase <= 1 && self.active_half <= 1
    }

    /// The next wrap completes a pair that is not frozen.
    pub open spec fn flips(self) -> bool {
        self.rev_phase == 1 && !self.freeze
    }

    /// The state after a revolution wrap.
    pub open spec fn wrapped(self, now_10us: u32) -> EdgeHalves {
        EdgeHalves {
            rev_phase: flipped(self.rev_phase),
            active_half: if self.flips() {
                flipped(self.active_half)
            } else {
                self.active_half
            },
            half_start_tick: if self.flips() {
                now_10us
            } else {
                self.half_start_tick
            },
            ..self
        }
    }

    /// What a revolution wrap asks of the caller.
    pub open spec fn flip_plan(self) -> Option<FlipPlan> {
        if self.flips() {
            Some(
                FlipPlan {
                    old_active: self.active_half as usize,
                    new_active: flipped(self.active_half) as usize,
                    old_half_start: self.half_start_tick,
                },
            )
        } else {
            None
        }
    }
}

/// A revolution wrapped: the phase moves on, and on the second revolution
/// of a pair that is not frozen the halves rotate.
pub fn on_rev_wrap(eh: &mut EdgeHalves, now_10us: u32) -> (r: Option<FlipPlan>)
    ensures
        *final(eh) == old(eh).wrapped(now_10us),
        r == old(eh).flip_plan(),
        old(eh).wf() ==> final(eh).wf(),
{
    let prev_phase: u8 = eh.rev_phase;
    eh.rev_phase = flip(prev_phase);
    if prev_phase == 1 && !eh.freeze {
        let old_active: u8 = eh.active_half;
        let new_active: u8 = flip(old_active);
        let old_half_start: u32 = eh.half_start_tick;
        eh.half_start_tick = now_10us;
        eh.active_half = new_active;
        Some(
            FlipPlan {
                old_active: old_active as usize,
                new_active: new_active as usize,
                old_half_start,
            },
        )
    } else {
        None
    }
}

/// The slot of a sector entry.
pub open spec fn slot_of(rev_phase: u8, sector: u8) -> Option<usize> {
    if rev_phase * 6 + sector < 12 {
        Some((rev_phase * 6 + sector) as usize)
    } else {
        None
    }
}

/// The slot of a sector entry: six per revolution of the pair, `None` out
/// of range.
pub fn boundary_slot(rev_phase: u8, sector: u8) -> (r: Option<usize>)
    ensures
        r == slot_of(rev_phase, sector),
{
    let slot: usize = rev_phase as usize * 6 + sector as usize;
    if slot < 12 {
        Some(slot)
    } else {
        None
    }
}

/// Every second wrap flips: of two wraps in a row that are not frozen
/// exactly one does, and it starts the new half at its own tick.
pub proof fn law_every_second_wrap_flips(eh: EdgeHalves, t1: u32, t2: u32)
    requires
        eh.wf(),
        !eh.freeze,
    ensures
        (eh.flip_plan() is Some) != (eh.wrapped(t1).flip_plan() is Some),
        eh.wrapped(t1).wrapped(t2).rev_phase == eh.rev_phase,
        eh.wrapped(t1).wrapped(t2).active_half == flipped(eh.active_half),
        eh.wrapped(t1).wrapped(t2).active_half != eh.active_half,
{
}

/// A frozen buffer keeps its half and its start across every wrap, while
/// the phase keeps counting.
pub proof fn law_freeze_keeps_the_half(eh: EdgeHalves, now_10us: u32)
    requires
        eh.freeze,
    ensures
        eh.flip_plan() is None,
        eh.wrapped(now_10us) == (EdgeHalves { rev_phase: flipped(eh.rev_phase), ..eh }),
{
}

/// Slots of a valid pair are distinct: one per revolution and sector.
pub proof fn law_slots_are_distinct(p1: u8, s1: u8, p2: u8, s2: u8)
    requires
        p1 <= 1 && p2 <= 1,
        s1 <= 5 && s2 <= 5,
        slot_of(p1, s1) == slot_of(p2, s2),
    ensures
        p1 == p2 && s1 == s2,
        slot_of(p1, s1) is Some,
{
}

/// The first revolution of a pair files its sectors in slots 0 to 5, the
/// second in 6 to 11, in order; there are no others.
pub proof fn law_slots_follow_the_sectors(sector: u8, phase: u8)
    ensures
        sector <= 5 ==> slot_of(0, sector) == Some(sector as usize),
        sector <= 5 ==> slot_of(1, sector) == Some((6 + sector) as usize),
        phase >= 2 ==> slot_of(phase, sector) is None,
{
}

/// A flip names the half that completed with its start, and writes the other
/// one from its own tick on; only the second wrap of a free pair flips.
pub proof fn law_flip_trades_the_halves(eh: EdgeHalves, now_10us: u32)
    requires
        eh.wf(),
    ensures
        ({
            let t = eh.wrapped(now_10us);
            &&& t.rev_phase == 1 - eh.rev_phase
            &&& t.freeze == eh.freeze
            &&& eh.flip_plan() is Some <==> eh.rev_phase == 1 && !eh.freeze
            &&& eh.flip_plan() is Some ==> {
                let p = eh.flip_plan()->0;
                &&& p.old_active == eh.active_half && p.old_active + p.new_active == 1
                &&& p.old_half_start == eh.half_start_tick
                &&& t.active_half == p.new_active && t.half_start_tick == now_10us
            }
            &&& eh.flip_plan() is None ==> t.active_half == eh.active_half && t.half_start_tick
                == eh.half_start_tick
        }),
{
}

} // verus!

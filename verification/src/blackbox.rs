//! The black-box ring: the last 64 control events, frozen on a fault and
//! replayed oldest first.

use vstd::prelude::*;

use crate::bits::min_of;
use crate::text::{bytes_of, decimal, right_aligned};
use crate::text::{push_decimal, push_decimal_aligned, push_text};

verus! {

/// Events the ring holds.
pub const BB_LEN: usize = 64;

/// Commutation re-timed by an accepted zero-cross.
pub const EV_REF: u8 = 0;

/// A or B window commutated by the blind free-run.
pub const EV_BLD: u8 = 1;

/// Dead-reckoned phase-C window commutation.
pub const EV_DRK: u8 = 2;

/// Qualified zero-cross accepted.
pub const EV_ACC: u8 = 3;

/// Closed-loop window closed with no qualified zero-cross.
pub const EV_NOZ: u8 = 4;

/// Candidate discarded by the confirm rule.
pub const EV_DIS: u8 = 5;

/// Desync watchdog kill.
pub const EV_DSY: u8 = 6;

/// Closed loop engaged.
pub const EV_ENG: u8 = 7;

/// Zero-cross starvation kill.
pub const EV_STV: u8 = 8;

/// Re-acquisition entered.
pub const EV_RAQ: u8 = 9;

/// Sync loss handled as a duty-clamped re-seed instead of a kill.
pub const EV_RSD: u8 = 10;

/// Level-rescue accept: the crossing predated the window, so its time was
/// taken from the first level sample. The data is the offset in µs from the
/// window start.
pub const EV_RSC: u8 = 11;

/// The type of an empty slot.
pub const EV_EMPTY: u8 = 0xFF;

/// One event.
#[derive(Debug, Clone, Copy, PartialEq, Eq, Structural, Default)]
pub struct Event {
    /// Time in 10 µs ticks, wrapping.
    pub t: u16,
    /// Type code.
    pub ty: u8,
    /// Sector.
    pub sector: u8,
    /// Data of the type.
    pub data: u16,
}

/// The ring of the last events.
#[derive(Debug, Clone, Copy)]
pub struct BlackBox {
    /// The slots.
    pub ring: [Event; BB_LEN],
    /// The slot written next.
    pub idx: usize,
    /// Events held.
    pub len: usize,
    /// Recording stopped.
    pub frozen: bool,
}

/// The last events of a history, as many as the ring holds.
pub open spec fn newest(events: Seq<Event>) -> Seq<Event> {
    if events.len() > BB_LEN {
        events.skip(events.len() - BB_LEN)
    } else {
        events
    }
}

impl BlackBox {
    /// Until the ring is full its slots fill from the start.
    pub open spec fn wf(self) -> bool {
        &&& self.idx < BB_LEN
        &&& self.len <= BB_LEN
        &&& self.len < BB_LEN ==> self.idx == self.len
    }

    /// The slot of the oldest event.
    pub open spec fn oldest(self) -> int {
        if self.len < BB_LEN {
            0
        } else {
            self.idx as int
        }
    }

    /// The events held, oldest first.
    pub open spec fn view(self) -> Seq<Event> {
        Seq::new(
            self.len as nat,
            |k: int| self.ring[(self.oldest() + k) % (BB_LEN as int)],
        )
    }

    /// Nothing recorded yet: every slot is empty, and the first is next.
    pub open spec fn blank(self) -> bool {
        &&& self.idx == 0
        &&& self.len == 0
        &&& !self.frozen
        &&& forall|k: int|
            0 <= k < BB_LEN ==> #[trigger] self.ring[k] == (Event {
                t: 0,
                ty: EV_EMPTY,
                sector: 0,
                data: 0,
            })
    }

    /// An empty ring.
    pub fn new() -> (r: Self)
        ensures
            r.blank(),
            r.wf(),
            r@ == Seq::<Event>::empty(),
            !r.frozen,
    {
        let r = Self {
            ring: [Event { t: 0, ty: EV_EMPTY, sector: 0, data: 0 };BB_LEN],
            idx: 0,
            len: 0,
            frozen: false,
        };
        assert(r@ =~= Seq::<Event>::empty());
        r
    }

    /// Records an event, unless the ring is frozen.
    pub fn record(&mut self, e: Event)
        requires
            old(self).wf(),
        ensures
            final(self).wf(),
            old(self).frozen ==> *final(self) == *old(self),
            !old(self).frozen ==> {
                &&& final(self)@ == newest(old(self)@.push(e))
                &&& final(self).ring@ == old(self).ring@.update(old(self).idx as int, e)
                &&& final(self).idx == (old(self).idx + 1) % (BB_LEN as int)
                &&& final(self).len == min_of(old(self).len + 1, BB_LEN as int)
                &&& !final(self).frozen
            },
    {
        if self.frozen {
            return;
        }
        self.ring[self.idx] = e;
        self.idx = (self.idx + 1) % BB_LEN;
        self.len = (self.len + 1).min(BB_LEN);
        assert(self@ =~= newest(old(self)@.push(e)));
    }

    /// Stops recording, so that the ring shows what led to a fault.
    pub fn freeze(&mut self)
        ensures
            *final(self) == (BlackBox { frozen: true, ..*old(self) }),
    {
        self.frozen = true;
    }

    /// Records again.
    pub fn thaw(&mut self)
        ensures
            *final(self) == (BlackBox { frozen: false, ..*old(self) }),
    {
        self.frozen = false;
    }

    /// The events held, oldest first.
    pub fn replay(&self) -> (r: Vec<Event>)
        requires
            self.wf(),
        ensures
            r@ == self@,
    {
        let start: usize = if self.len < BB_LEN {
            0
        } else {
            self.idx
        };
        let mut out: Vec<Event> = Vec::new();
        let mut k: usize = 0;
        while k < self.len
            invariant
                self.wf(),
                start == self.oldest(),
                k <= self.len,
                out@ == self@.take(k as int),
            decreases self.len - k,
        {
            out.push(self.ring[(start + k) % BB_LEN]);
            k = k + 1;
            assert(out@ =~= self@.take(k as int));
        }
        assert(self@.take(k as int) =~= self@);
        out
    }
}

impl Default for BlackBox {
    fn default() -> (r: Self)
        ensures
            r.blank(),
            r.wf(),
            r@ == Seq::<Event>::empty(),
            !r.frozen,
    {
        Self::new()
    }
}

/// Display name of an event type.
pub open spec fn name_of(ty: u8) -> &'static str {
    if ty == EV_REF {
        "REF"
    } else if ty == EV_BLD {
        "BLD"
    } else if ty == EV_DRK {
        "DRK"
    } else if ty == EV_ACC {
        "ACC"
    } else if ty == EV_NOZ {
        "NOZ"
    } else if ty == EV_DIS {
        "DIS"
    } else if ty == EV_DSY {
        "DSY"
    } else if ty == EV_ENG {
        "ENG"
    } else if ty == EV_STV {
        "STV"
    } else if ty == EV_RAQ {
        "RAQ"
    } else if ty == EV_RSD {
        "RSD"
    } else if ty == EV_RSC {
        "RSC"
    } else {
        "???"
    }
}

/// Display name of an event type, `???` for an unknown one.
pub fn ev_name(ty: u8) -> (r: &'static str)
    ensures
        r@ == name_of(ty)@,
{
    match ty {
        0 => "REF",
        1 => "BLD",
        2 => "DRK",
        3 => "ACC",
        4 => "NOZ",
        5 => "DIS",
        6 => "DSY",
        7 => "ENG",
        8 => "STV",
        9 => "RAQ",
        10 => "RSD",
        11 => "RSC",
        _ => "???",
    }
}

/// The time of the last event shown, empty slots aside.
pub open spec fn last_shown(events: Seq<Event>) -> Option<u16>
    decreases events.len(),
{
    if events.len() == 0 {
        None
    } else if events.last().ty != EV_EMPTY {
        Some(events.last().t)
    } else {
        last_shown(events.drop_last())
    }
}

/// Time in µs since the last event shown, 0 for the first.
pub open spec fn delta_us(e: Event, prev: Option<u16>) -> nat {
    match prev {
        Some(p) => (e.t.wrapping_sub(p) * 10) as nat,
        None => 0,
    }
}

/// The line of an event.
pub open spec fn event_line(e: Event, prev: Option<u16>) -> Seq<u8> {
    bytes_of("bb +") + right_aligned(decimal(delta_us(e, prev)), 6) + bytes_of("us ")
        + bytes_of(name_of(e.ty)) + bytes_of(" s") + decimal(e.sector as nat)
        + bytes_of(" d=") + decimal(e.data as nat) + bytes_of("\r\n")
}

/// The dump of a run of events: a line each, empty slots skipped.
pub open spec fn dump_text(events: Seq<Event>) -> Seq<u8>
    decreases events.len(),
{
    if events.len() == 0 {
        Seq::empty()
    } else {
        let front = events.drop_last();
        let e = events.last();
        if e.ty == EV_EMPTY {
            dump_text(front)
        } else {
            dump_text(front) + event_line(e, last_shown(front))
        }
    }
}

/// Appends the dump of a run of events, oldest first: one line each with
/// the time since the one before. Empty slots are skipped.
pub fn format_dump(events: &[Event], out: &mut Vec<u8>)
    ensures
        final(out)@ == old(out)@ + dump_text(events@),
{
    let mut prev_t: Option<u16> = None;
    let mut k: usize = 0;
    assert(out@ =~= old(out)@ + dump_text(events@.take(0)));
    while k < events.len()
        invariant
            k <= events.len(),
            out@ == old(out)@ + dump_text(events@.take(k as int)),
            prev_t == last_shown(events@.take(k as int)),
        decreases events.len() - k,
    {
        let e: Event = events[k];
        let ghost before = out@;
        let ghost front = events@.take(k as int);
        assert(events@.take(k + 1).drop_last() =~= front);
        if e.ty != EV_EMPTY {
            let dt: u32 = match prev_t {
                Some(p) => e.t.wrapping_sub(p) as u32 * 10,
                None => 0,
            };
            prev_t = Some(e.t);
            push_text(out, "bb +");
            push_decimal_aligned(out, dt, 6);
            push_text(out, "us ");
            push_text(out, ev_name(e.ty));
            push_text(out, " s");
            push_decimal(out, e.sector as u32);
            push_text(out, " d=");
            push_decimal(out, e.data as u32);
            push_text(out, "\r\n");
            assert(out@ =~= before + event_line(e, last_shown(front)));
            assert(out@ =~= old(out)@ + dump_text(events@.take(k + 1)));
        }
        k = k + 1;
    }
    assert(events@.take(k as int) =~= events@);
}

/// The events of a ring after a run of records.
pub open spec fn recorded_all(held: Seq<Event>, more: Seq<Event>) -> Seq<Event>
    decreases more.len(),
{
    if more.len() == 0 {
        held
    } else {
        newest(recorded_all(held, more.drop_last()).push(more.last()))
    }
}

/// The ring always replays the newest events in order, whatever came
/// before them.
pub proof fn law_ring_replays_the_newest(held: Seq<Event>, more: Seq<Event>)
    requires
        held.len() <= BB_LEN,
    ensures
        recorded_all(held, more) == newest(held + more),
    decreases more.len(),
{
    if more.len() == 0 {
        assert(held + more =~= held);
    } else {
        law_ring_replays_the_newest(held, more.drop_last());
        let before = recorded_all(held, more.drop_last());
        assert((held + more.drop_last()).push(more.last()) =~= held + more);
        assert(newest(before.push(more.last())) =~= newest(held + more));
    }
}

/// Only real events are shown: the dump of a run is the dump of it without
/// its empty slots.
pub proof fn law_empty_slots_leave_no_trace(events: Seq<Event>)
    ensures
        dump_text(events) == dump_text(events.filter(|e: Event| e.ty != EV_EMPTY)),
        last_shown(events) == last_shown(events.filter(|e: Event| e.ty != EV_EMPTY)),
    decreases events.len(),
{
    let shown = |e: Event| e.ty != EV_EMPTY;
    reveal(Seq::filter);
    if events.len() > 0 {
        let front = events.drop_last();
        law_empty_slots_leave_no_trace(front);
        if shown(events.last()) {
            assert(events.filter(shown).drop_last() =~= front.filter(shown));
        }
    }
}

/// The ring holds the last 64 events: a history of fewer is held whole, and
/// of more its first ones are gone.
pub proof fn law_ring_holds_sixty_four(events: Seq<Event>)
    ensures
        events.len() <= 64 ==> newest(events) == events,
        events.len() > 64 ==> {
            &&& newest(events).len() == 64
            &&& newest(events).last() == events.last()
            &&& newest(events)[0] == events[events.len() - 64]
        },
{
}

/// The time shown is that since the event before, in steps of 10 µs, across
/// the wrap of its clock; the first event shows none.
pub proof fn law_time_shown_is_since_the_last(e: Event, before: u16, ticks: u16)
    requires
        e.t == before.wrapping_add(ticks),
    ensures
        delta_us(e, Some(before)) == 10 * ticks,
        delta_us(e, None) == 0,
{
}

/// Every known event type has a name of its own, and the others share one.
pub proof fn law_event_names_are_distinct(a: u8, b: u8)
    requires
        a < b,
        a <= 11,
    ensures
        name_of(a)@ != name_of(b)@,
        b >= 12 ==> name_of(b)@ == "???"@,
        name_of(a)@.len() == 3,
{
    reveal_strlit("REF");
    reveal_strlit("BLD");
    reveal_strlit("DRK");
    reveal_strlit("ACC");
    reveal_strlit("NOZ");
    reveal_strlit("DIS");
    reveal_strlit("DSY");
    reveal_strlit("ENG");
    reveal_strlit("STV");
    reveal_strlit("RAQ");
    reveal_strlit("RSD");
    reveal_strlit("RSC");
    reveal_strlit("???");
    let x = name_of(a)@;
    let y = name_of(b)@;
    assert(x[0] != y[0] || x[1] != y[1] || x[2] != y[2]);
}

} // verus!

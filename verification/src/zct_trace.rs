//! The zero-cross trace: one packed record per commutation, batched above
//! the wire's bandwidth, pushed under a critical section because two
//! interrupt contexts write it.

use vstd::prelude::*;

use crate::am32::{batches, record_bytes, ring_pushed, zct_flags, zct_row};
use crate::am32::{zct_batch_gate, zct_pack, ZctRing, ZCT_BATCH_CI_TICKS, ZCT_BATCH_LEN, ZCT_REC};
use crate::am32_hal::{Cs, Guarded, Held, SectionEvent};
use crate::am32_loop::{Drive, Duty, Sched};
use crate::bits::min_of;
use crate::bits::{low16, low8};

verus! {

/// Records moved to the wire per pass of the main loop.
pub const DRAIN_PER_PASS: usize = 3;

/// The trace ring with the state of its batching.
pub struct ZctTrace<const N: usize> {
    /// The records.
    pub ring: ZctRing<N>,
    /// Commutations so far.
    pub comm_n: u32,
    /// The trace is batched.
    pub batching: bool,
}

/// The record of a commutation.
pub open spec fn trace_row(sched: Sched, drive: Drive, duty: Duty, batching: bool) -> Seq<u8> {
    zct_row(
        zct_flags((drive.current_step % 0x100) as u8, drive.old_routine, batching),
        sched.this_zc,
        (sched.commutation_interval % 0x1_0000) as u16,
        sched.wait_time,
        duty.duty_cycle,
        drive.tenkhz_counter,
        (sched.average_interval % 0x1_0000) as u16,
    )
}

impl<const N: usize> Guarded for ZctRing<N> {
    open spec fn held(&self) -> Held {
        Held::Ring(self@, self.drop)
    }
}

impl<const N: usize> ZctTrace<N> {
    /// The trace is batched from this commutation on.
    pub open spec fn next_batching(self, sched: Sched) -> bool {
        batches(self.comm_n, sched.commutation_interval, self.batching)
    }

    /// This commutation is recorded.
    pub open spec fn records(self, sched: Sched) -> bool {
        !(self.next_batching(sched) && self.comm_n / ZCT_BATCH_LEN % 2 == 1)
    }

    /// `after` is the trace once this commutation is written: one more
    /// commutation counted, and its record in the ring if it is recorded.
    pub open spec fn written(
        self,
        sched: Sched,
        drive: Drive,
        duty: Duty,
        after: ZctTrace<N>,
    ) -> bool {
        let batching = self.next_batching(sched);
        &&& after.ring.wf()
        &&& after.comm_n == self.comm_n.wrapping_add(1)
        &&& after.batching == batching
        &&& if self.records(sched) {
            &&& exists|rec: [u8; ZCT_REC]|
                rec@ == trace_row(sched, drive, duty, batching) && after.ring@
                    == #[trigger] ring_pushed(self.ring@, rec, N - 1)
            &&& after.ring.drop == if self.ring@.len() + 1 >= N {
                self.ring.drop.wrapping_add(1)
            } else {
                self.ring.drop
            }
        } else {
            after.ring == self.ring
        }
    }

    /// The critical sections of a write that led to `after`: a record is
    /// pushed between the ends of one.
    pub open spec fn write_sections(self, sched: Sched, after: ZctTrace<N>) -> Seq<SectionEvent> {
        if self.records(sched) {
            seq![
                SectionEvent::Enter(self.ring.held()),
                SectionEvent::Leave(after.ring.held()),
            ]
        } else {
            Seq::empty()
        }
    }

    /// Writes the record of one commutation, unless its batch is skipped.
    /// The record is pushed inside the critical section.
    pub fn write<S: Cs>(&mut self, sched: &Sched, drive: &Drive, duty: &Duty, cs: &mut S)
        requires
            old(self).ring.wf(),
        ensures
            old(self).written(*sched, *drive, *duty, *final(self)),
            final(cs).trace() == old(cs).trace() + old(self).write_sections(*sched, *final(self)),
    {
        let n: u32 = self.comm_n;
        self.comm_n = n.wrapping_add(1);
        let ci_ticks: u32 = sched.commutation_interval;
        let (record, batching) = zct_batch_gate(n, ci_ticks, self.batching);
        self.batching = batching;
        if !record {
            assert(cs.trace() =~= old(cs).trace() + old(self).write_sections(*sched, *self));
            return;
        }
        let rec: [u8; ZCT_REC] = zct_pack(
            low8(drive.current_step),
            drive.old_routine,
            batching,
            sched.this_zc,
            low16(ci_ticks),
            sched.wait_time,
            duty.duty_cycle,
            drive.tenkhz_counter,
            low16(sched.average_interval),
        );
        cs.enter(&self.ring);
        self.ring.push_rec(&rec);
        cs.leave(&self.ring);
        assert(cs.trace() =~= old(cs).trace() + old(self).write_sections(*sched, *self));
        assert(rec@ == trace_row(*sched, *drive, *duty, batching));
    }

    /// How many records one pass moves.
    pub open spec fn drain_count(self) -> int {
        min_of(self.ring@.len() as int, DRAIN_PER_PASS as int)
    }

    /// Moves up to three records to the end of `out`.
    pub fn drain(&mut self, out: &mut Vec<u8>)
        requires
            old(self).ring.wf(),
        ensures
            ({
                let k = old(self).drain_count();
                &&& final(out)@ == old(out)@ + record_bytes(old(self).ring@.take(k))
                &&& final(self).ring@ == old(self).ring@.skip(k)
            }),
            final(self).ring.wf(),
            final(self).ring.drop == old(self).ring.drop,
            final(self).comm_n == old(self).comm_n,
            final(self).batching == old(self).batching,
    {
        self.ring.drain(DRAIN_PER_PASS, out);
    }
}

/// Whether commutation `n` of a motor at constant speed is recorded, once
/// the trace has settled at its first boundary.
pub open spec fn steady_recorded(n: u32, ci_ticks: u32) -> bool {
    !(ci_ticks < ZCT_BATCH_CI_TICKS && n / ZCT_BATCH_LEN % 2 == 1)
}

/// A settled trace at constant speed stays settled. Below the bandwidth
/// limit it records every commutation; above it, whole batches of
/// consecutive commutations alternate with skipped ones.
pub proof fn law_batches_are_consecutive<const N: usize>(z: ZctTrace<N>, sched: Sched, m: u32)
    requires
        z.batching == (sched.commutation_interval < ZCT_BATCH_CI_TICKS),
        z.comm_n / ZCT_BATCH_LEN == m / ZCT_BATCH_LEN,
    ensures
        z.next_batching(sched) == z.batching,
        z.records(sched) == steady_recorded(z.comm_n, sched.commutation_interval),
        steady_recorded(z.comm_n, sched.commutation_interval) == steady_recorded(
            m,
            sched.commutation_interval,
        ),
        !z.batching ==> z.records(sched),
        z.batching && m <= u32::MAX - ZCT_BATCH_LEN ==> steady_recorded(
            m,
            sched.commutation_interval,
        ) != steady_recorded((m + ZCT_BATCH_LEN) as u32, sched.commutation_interval),
{
}

/// A recorded commutation can be read back from its record: the step modulo
/// 8, the mode and the batching, and the zero-cross time, the interval, the
/// wait, the duty, the tick count and the average, each modulo 65 536.
pub proof fn law_record_tells_the_commutation(sched: Sched, drive: Drive, duty: Duty, batching: bool)
    ensures
        ({
            let row = trace_row(sched, drive, duty, batching);
            &&& row.len() == 15
            &&& row[0] == 0x5B && row[1] == 0xA9
            &&& row[2] % 8 == drive.current_step as int % 8
            &&& (row[2] >= 128) == drive.old_routine
            &&& (row[2] % 128 >= 64) == batching
            &&& row[3] + 256 * row[4] == sched.this_zc
            &&& row[5] + 256 * row[6] == sched.commutation_interval as int % 65_536
            &&& row[7] + 256 * row[8] == sched.wait_time
            &&& row[9] + 256 * row[10] == duty.duty_cycle
            &&& row[11] + 256 * row[12] == drive.tenkhz_counter
            &&& row[13] + 256 * row[14] == sched.average_interval as int % 65_536
        }),
{
}

/// A write counts one commutation. Below the bandwidth limit, 200 ticks, a
/// batched trace skips every second batch of 50; what is recorded is the
/// newest record of the ring.
pub proof fn law_write_records_the_commutation<const N: usize>(
    z: ZctTrace<N>,
    sched: Sched,
    drive: Drive,
    duty: Duty,
    after: ZctTrace<N>,
)
    requires
        z.written(sched, drive, duty, after),
        z.ring.wf(),
        N >= 2,
    ensures
        after.comm_n == z.comm_n.wrapping_add(1),
        z.comm_n % 50 == 0 ==> after.batching == (sched.commutation_interval < 200),
        z.comm_n % 50 != 0 ==> after.batching == z.batching,
        ({
            let skipped = after.batching && z.comm_n % 100 >= 50;
            &&& skipped ==> after.ring == z.ring
            &&& !skipped ==> {
                &&& after.ring@.len() >= 1
                &&& after.ring@.last()@ == trace_row(sched, drive, duty, after.batching)
                &&& z.ring@.len() + 1 < N ==> after.ring@.drop_last() == z.ring@ && after.ring.drop
                    == z.ring.drop
                &&& z.ring@.len() + 1 == N ==> after.ring@.drop_last() == z.ring@.skip(1)
                    && after.ring.drop == z.ring.drop.wrapping_add(1)
            }
        }),
{
    let skipped = after.batching && z.comm_n % 100 >= 50;
    assert(skipped == !z.records(sched));
    if !skipped {
        let rec = choose|rec: [u8; ZCT_REC]|
            rec@ == trace_row(sched, drive, duty, z.next_batching(sched)) && after.ring@
                == #[trigger] ring_pushed(z.ring@, rec, N - 1);
        let all = z.ring@.push(rec);
        assert(z.ring@.len() < N);
        if z.ring@.len() + 1 < N {
            assert(after.ring@ == all);
            assert(after.ring@.drop_last() =~= z.ring@);
        } else {
            assert(after.ring@ == all.skip(1));
            assert(after.ring@.drop_last() =~= z.ring@.skip(1));
            assert(after.ring@.last() == rec);
        }
    }
}

/// A pass moves what there is, up to three records.
pub proof fn law_pass_moves_three<const N: usize>(z: ZctTrace<N>)
    ensures
        z.ring@.len() <= 3 ==> z.drain_count() == z.ring@.len(),
        z.ring@.len() >= 3 ==> z.drain_count() == 3,
{
}

} // verus!

//! Bounded ring of DAQ frames (DTOs) between the triggering threads and
//! the transport sender.
//!
//! A push never blocks: when the ring is full the frame is dropped and the
//! lost counter is incremented. Every push, accepted or dropped, consumes
//! one transport counter value, so a decoder summing the gaps of the
//! delivered counters recovers the number of dropped frames.

use vstd::prelude::*;

verus! {

/// One queued DAQ frame with the transport counter it was assigned.
#[derive(Debug)]
pub struct DtoFrame {
    /// Transport counter value consumed by this frame.
    pub ctr: u64,
    /// Frame payload, immutable once pushed.
    pub payload: Vec<u8>,
}

/// Bounded FIFO of DAQ frames with loss accounting.
#[derive(Debug)]
pub struct DtoRing {
    /// Queued frames, oldest first.
    pub entries: Vec<DtoFrame>,
    /// Maximum number of queued frames.
    pub depth: usize,
    /// Next transport counter value; each push consumes one.
    pub next_ctr: u64,
    /// Number of frames dropped because the ring was full.
    pub lost: u64,
    /// Number of frames accepted into the ring.
    pub accepted: u64,
}

impl DtoRing {
    /// Ring invariant: every push consumed one counter, so the counters
    /// of dropped and accepted frames partition `0 .. next_ctr`; queued
    /// frames carry strictly increasing counters below `next_ctr`.
    pub open spec fn wf(&self) -> bool {
        &&& self.entries@.len() <= self.depth
        &&& self.accepted + self.lost == self.next_ctr
        &&& self.entries@.len() <= self.accepted
        &&& forall|i: int|
            0 <= i < self.entries@.len() ==> (#[trigger] self.entries@[i]).ctr < self.next_ctr
        &&& forall|i: int, j: int|
            0 <= i < j < self.entries@.len() ==> (#[trigger] self.entries@[i]).ctr < (
            #[trigger] self.entries@[j]).ctr
    }

    /// An empty ring of the given depth.
    pub fn new(depth: usize) -> (r: DtoRing)
        ensures
            r.wf(),
            r.depth == depth,
            r.entries@.len() == 0,
            r.next_ctr == 0,
            r.lost == 0,
            r.accepted == 0,
    {
        DtoRing { entries: Vec::new(), depth, next_ctr: 0, lost: 0, accepted: 0 }
    }

    /// Number of queued frames.
    pub fn len(&self) -> (r: usize)
        ensures
            r == self.entries@.len(),
    {
        self.entries.len()
    }

    /// The lost counter.
    pub fn get_lost(&self) -> (r: u64)
        ensures
            r == self.lost,
    {
        self.lost
    }

    /// Push a frame.
    ///
    /// The frame is accepted when the ring has room, else dropped with the
    /// lost counter incremented; either way one counter value is consumed.
    /// The loss accounting law holds across every call: the dropped and
    /// accepted counts always sum to the consumed counter values.
    pub fn push(&mut self, payload: Vec<u8>) -> (accepted: bool)
        requires
            old(self).wf(),
            old(self).next_ctr < u64::MAX,
        ensures
            final(self).wf(),
            final(self).depth == old(self).depth,
            final(self).next_ctr == old(self).next_ctr + 1,
            accepted <==> old(self).entries@.len() < old(self).depth,
            accepted ==> {
                &&& final(self).entries@.len() == old(self).entries@.len() + 1
                &&& final(self).entries@ == old(self).entries@.push(final(self).entries@.last())
                &&& final(self).entries@.last().ctr == old(self).next_ctr
                &&& final(self).entries@.last().payload@ == payload@
                &&& final(self).lost == old(self).lost
                &&& final(self).accepted == old(self).accepted + 1
            },
            !accepted ==> {
                &&& final(self).entries@ == old(self).entries@
                &&& final(self).lost == old(self).lost + 1
                &&& final(self).accepted == old(self).accepted
            },
    {
        let ctr = self.next_ctr;
        self.next_ctr = self.next_ctr + 1;
        if self.entries.len() < self.depth {
            self.entries.push(DtoFrame { ctr, payload });
            self.accepted = self.accepted + 1;
            proof {
                assert forall|i: int, j: int| 0 <= i < j < self.entries@.len() implies (
                #[trigger] self.entries@[i]).ctr < (#[trigger] self.entries@[j]).ctr by {
                    if j < self.entries@.len() - 1 {
                        assert(old(self).entries@[i].ctr < old(self).entries@[j].ctr);
                    } else {
                        assert(self.entries@[i] == old(self).entries@[i]);
                    }
                }
            }
            true
        } else {
            self.lost = self.lost + 1;
            false
        }
    }

    /// Pop the oldest frame, if any. Frames leave in push order.
    pub fn pop(&mut self) -> (r: Option<DtoFrame>)
        requires
            old(self).wf(),
        ensures
            final(self).wf(),
            final(self).depth == old(self).depth,
            final(self).next_ctr == old(self).next_ctr,
            final(self).lost == old(self).lost,
            final(self).accepted == old(self).accepted,
            old(self).entries@.len() == 0 ==> r is None && final(self).entries@ == old(self).entries@,
            old(self).entries@.len() > 0 ==> r is Some && r->0 == old(self).entries@[0] && final(self).entries@ == old(self).entries@.drop_first(),
    {
        if self.entries.len() == 0 {
            None
        } else {
            let f = self.entries.remove(0);
            proof {
                assert(self.entries@ =~= old(self).entries@.drop_first());
            }
            Some(f)
        }
    }
}

/// Sum of the counter gaps of a delivered frame sequence: for each
/// consecutive pair, the number of counter values that were skipped.
pub open spec fn ctr_gap_sum(ctrs: Seq<int>) -> int
    decreases ctrs.len(),
{
    if ctrs.len() < 2 {
        0
    } else {
        (ctrs[1] - ctrs[0] - 1) + ctr_gap_sum(ctrs.drop_first())
    }
}

/// Loss accounting law: for frames delivered with strictly increasing
/// counters, the summed counter gaps equal the number of counter values
/// consumed between the first and the last delivered frame that carried no
/// delivered frame — exactly the frames the ring dropped in that window,
/// since every push consumes one counter value.
pub proof fn lemma_ctr_gap_counts_losses(ctrs: Seq<int>)
    requires
        ctrs.len() >= 1,
        forall|i: int, j: int| 0 <= i < j < ctrs.len() ==> ctrs[i] < ctrs[j],
    ensures
        ctr_gap_sum(ctrs) == ctrs.last() - ctrs[0] + 1 - ctrs.len(),
    decreases ctrs.len(),
{
    if ctrs.len() >= 2 {
        let rest = ctrs.drop_first();
        assert forall|i: int, j: int| 0 <= i < j < rest.len() implies rest[i] < rest[j] by {
            assert(rest[i] == ctrs[i + 1] && rest[j] == ctrs[j + 1]);
        }
        lemma_ctr_gap_counts_losses(rest);
        assert(rest.last() == ctrs.last());
        assert(rest[0] == ctrs[1]);
    }
}

} // verus!

//! Blocking-bounded variant of the bounded audio queue.
//!
//! This queue bridges an audio callback and another thread, so neither side
//! may wait: a push into a full queue drops the new sample (the producer
//! logs a diagnostic and moves on), and a pop from an empty queue yields
//! nothing, which the consuming callback replaces with silence. Capacity is
//! fixed for the queue's lifetime, so a glitch stays a glitch and never
//! becomes unbounded memory growth or a stall.

use vstd::prelude::*;

verus! {

/// How many samples of a burst of `pushed` leave a queue already holding
/// `len` out of `cap`: everything beyond the free space.
pub open spec fn drop_count(len: nat, pushed: nat, cap: nat) -> nat {
    if len + pushed <= cap {
        0
    } else {
        ((len + pushed) - cap) as nat
    }
}

/// Law: a burst never loses more than it pushed, and a burst into an empty
/// queue loses exactly the excess over the capacity.
pub proof fn lemma_burst_drop_bound(len: nat, pushed: nat, cap: nat)
    requires
        len <= cap,
    ensures
        drop_count(len, pushed, cap) <= pushed,
        len == 0 && pushed >= cap ==> drop_count(len, pushed, cap) == pushed - cap,
        len == 0 && pushed <= cap ==> drop_count(len, pushed, cap) == 0,
{
}

/// Fixed-capacity FIFO of samples with the drop-newest policy; the view is
/// its contents, front (oldest) first.
pub struct BoundedQueue {
    buf: Vec<i64>,
    cap: usize,
}

impl View for BoundedQueue {
    type V = Seq<i64>;

    closed spec fn view(&self) -> Seq<i64> {
        self.buf@
    }
}

impl BoundedQueue {
    /// A queue never holds more than its capacity, which is positive and
    /// fixed for its lifetime. Holding this bound is what keeps passthrough
    /// latency at one buffer length.
    pub closed spec fn wf(self) -> bool {
        self.cap >= 1 && self.buf@.len() <= self.cap
    }

    /// The fixed capacity.
    pub closed spec fn capacity_spec(self) -> nat {
        self.cap as nat
    }

    /// Law: a well-formed queue never holds more than its capacity, so the
    /// passthrough path buffers at most one configured buffer length.
    pub proof fn lemma_within_capacity(self)
        requires
            self.wf(),
        ensures
            self@.len() <= self.capacity_spec(),
    {
    }

    /// Creates an empty queue of the given capacity.
    pub fn new(capacity: usize) -> (queue: BoundedQueue)
        requires
            capacity >= 1,
        ensures
            queue.wf(),
            queue@ == Seq::<i64>::empty(),
            queue.capacity_spec() == capacity,
    {
        BoundedQueue { buf: Vec::new(), cap: capacity }
    }

    /// Tries to append one sample without waiting: accepted exactly when
    /// the queue has room, and a full queue leaves the sample dropped and
    /// the contents untouched.
    pub fn try_push(&mut self, x: i64) -> (accepted: bool)
        requires
            old(self).wf(),
        ensures
            final(self).wf(),
            final(self).capacity_spec() == old(self).capacity_spec(),
            accepted <==> old(self)@.len() < old(self).capacity_spec(),
            accepted ==> final(self)@ == old(self)@.push(x),
            !accepted ==> final(self)@ == old(self)@,
    {
        if self.buf.len() < self.cap {
            self.buf.push(x);
            true
        } else {
            false
        }
    }

    /// Pushes a burst of samples, oldest first, and reports how many were
    /// dropped: the queue keeps its oldest contents and accepts the longest
    /// prefix of the burst that fits.
    pub fn push_burst(&mut self, xs: &Vec<i64>) -> (dropped: usize)
        requires
            old(self).wf(),
        ensures
            final(self).wf(),
            final(self).capacity_spec() == old(self).capacity_spec(),
            dropped == drop_count(old(self)@.len(), xs@.len(), old(self).capacity_spec()),
            final(self)@ == old(self)@ + xs@.take(xs@.len() - dropped),
    {
        let ghost cap = self.capacity_spec();
        let mut i: usize = 0;
        let mut dropped: usize = 0;
        while i < xs.len()
            invariant
                i <= xs@.len(),
                self.wf(),
                self.capacity_spec() == cap,
                dropped == drop_count(old(self)@.len(), i as nat, cap),
                dropped <= i,
                self@ == old(self)@ + xs@.take(i - dropped),
            decreases xs@.len() - i,
        {
            let accepted = self.try_push(xs[i]);
            if !accepted {
                dropped = dropped + 1;
                proof {
                    assert(xs@.take(i - (dropped - 1)) =~= xs@.take(i + 1 - dropped));
                }
            } else {
                proof {
                    assert(xs@.take(i - dropped).push(xs@[i as int]) =~= xs@.take(i + 1 - dropped));
                }
            }
            i = i + 1;
        }
        dropped
    }

    /// Removes and returns the oldest sample, or nothing from an empty
    /// queue; never waits.
    pub fn pop(&mut self) -> (front: Option<i64>)
        requires
            old(self).wf(),
        ensures
            final(self).wf(),
            final(self).capacity_spec() == old(self).capacity_spec(),
            old(self)@.len() == 0 ==> front is None && final(self)@ == old(self)@,
            old(self)@.len() > 0 ==> front == Some(old(self)@[0]) && final(self)@ == old(
                self,
            )@.skip(1),
    {
        if self.buf.len() == 0 {
            None
        } else {
            let x = self.buf.remove(0);
            proof {
                assert(self.buf@ =~= old(self).buf@.skip(1));
            }
            Some(x)
        }
    }

    /// Removes and returns the oldest sample, substituting silence on
    /// underrun: what the consuming audio callback plays when the producer
    /// has fallen behind.
    pub fn pop_or_silence(&mut self) -> (x: i64)
        requires
            old(self).wf(),
        ensures
            final(self).wf(),
            final(self).capacity_spec() == old(self).capacity_spec(),
            old(self)@.len() == 0 ==> x == 0 && final(self)@ == old(self)@,
            old(self)@.len() > 0 ==> x == old(self)@[0] && final(self)@ == old(self)@.skip(1),
    {
        match self.pop() {
            Some(x) => x,
            None => 0,
        }
    }

    /// How many samples the queue holds now.
    pub fn len(&self) -> (n: usize)
        ensures
            n == self@.len(),
    {
        self.buf.len()
    }

    /// The fixed capacity.
    pub fn capacity(&self) -> (c: usize)
        ensures
            c == self.capacity_spec(),
    {
        self.cap
    }
}

} // verus!

//! Overwrite-ring variant of the bounded audio queue.
//!
//! The display consumer wants the most recent samples and may lose older
//! ones, so a push never fails: a full ring evicts its oldest element
//! before the new one enters. Readers therefore always see the latest
//! `capacity` samples, oldest first.

use vstd::prelude::*;

verus! {

/// One push into an overwrite ring of capacity `cap`: a full ring evicts
/// its oldest element before the new one enters.
pub open spec fn ring_push(s: Seq<i64>, cap: nat, x: i64) -> Seq<i64>
    recommends
        cap >= 1,
        s.len() <= cap,
{
    if s.len() < cap {
        s.push(x)
    } else {
        s.skip(1).push(x)
    }
}

/// A whole block pushed into an overwrite ring, oldest first.
pub open spec fn ring_push_all(s: Seq<i64>, cap: nat, xs: Seq<i64>) -> Seq<i64>
    decreases xs.len(),
{
    if xs.len() == 0 {
        s
    } else {
        ring_push_all(ring_push(s, cap, xs[0]), cap, xs.skip(1))
    }
}

/// The last `cap` elements of a sequence, or all of it when it is shorter.
pub open spec fn recent(s: Seq<i64>, cap: nat) -> Seq<i64> {
    if s.len() <= cap {
        s
    } else {
        s.skip(s.len() - cap)
    }
}

/// Pushing one element after a block is pushing the block grown by that
/// element.
pub proof fn lemma_ring_push_all_snoc(s: Seq<i64>, cap: nat, xs: Seq<i64>, x: i64)
    ensures
        ring_push_all(s, cap, xs.push(x)) == ring_push(ring_push_all(s, cap, xs), cap, x),
    decreases xs.len(),
{
    if xs.len() == 0 {
        assert(xs.push(x)[0] == x);
        assert(xs.push(x).skip(1) =~= Seq::<i64>::empty());
        assert(ring_push_all(ring_push(s, cap, x), cap, Seq::<i64>::empty()) == ring_push(
            s,
            cap,
            x,
        ));
    } else {
        assert(xs.push(x)[0] == xs[0]);
        assert(xs.push(x).skip(1) =~= xs.skip(1).push(x));
        assert(ring_push_all(s, cap, xs.push(x)) == ring_push_all(
            ring_push(s, cap, xs[0]),
            cap,
            xs.skip(1).push(x),
        ));
        lemma_ring_push_all_snoc(ring_push(s, cap, xs[0]), cap, xs.skip(1), x);
    }
}

/// Law: after any block of pushes, an overwrite ring holds exactly the most
/// recent `cap` elements of everything it ever held, in arrival order.
pub proof fn lemma_ring_push_all_recent(s: Seq<i64>, cap: nat, xs: Seq<i64>)
    requires
        cap >= 1,
        s.len() <= cap,
    ensures
        ring_push_all(s, cap, xs) == recent(s + xs, cap),
    decreases xs.len(),
{
    if xs.len() == 0 {
        assert(s + xs =~= s);
    } else {
        let s1 = ring_push(s, cap, xs[0]);
        lemma_ring_push_all_recent(s1, cap, xs.skip(1));
        if s.len() < cap {
            assert(s1 + xs.skip(1) =~= (s + xs).skip(0));
            assert((s + xs).skip(0) =~= s + xs);
            if s1.len() + xs.len() - 1 <= cap {
            } else {
                assert((s1 + xs.skip(1)).skip(s1.len() + xs.len() - 1 - cap) =~= (s + xs).skip(
                    s.len() + xs.len() - cap,
                ));
            }
        } else {
            assert(s1 + xs.skip(1) =~= (s + xs).skip(1));
            if s1.len() + xs.len() - 1 <= cap {
                assert(s.len() + xs.len() - cap == 1);
                assert((s + xs).skip(1) =~= recent(s + xs, cap));
            } else {
                assert((s1 + xs.skip(1)).skip(s1.len() + xs.len() - 1 - cap) =~= (s + xs).skip(
                    s.len() + xs.len() - cap,
                ));
            }
        }
    }
}

/// Law: a ring of capacity `cap` that absorbs `cap + 1` elements from empty
/// holds exactly the last `cap` of them, in order.
pub proof fn lemma_ring_capacity_overflow(cap: nat, xs: Seq<i64>)
    requires
        cap >= 1,
        xs.len() == cap + 1,
    ensures
        ring_push_all(Seq::<i64>::empty(), cap, xs) == xs.skip(1),
{
    lemma_ring_push_all_recent(Seq::<i64>::empty(), cap, xs);
    assert(Seq::<i64>::empty() + xs =~= xs);
}

/// Fixed-capacity ring of normalized samples with the overwrite-oldest
/// policy; the view is its contents, oldest first.
pub struct OverwriteRing {
    buf: Vec<i64>,
    cap: usize,
}

impl View for OverwriteRing {
    type V = Seq<i64>;

    closed spec fn view(&self) -> Seq<i64> {
        self.buf@
    }
}

impl OverwriteRing {
    /// A ring never holds more than its capacity, which is positive and
    /// fixed for its lifetime.
    pub closed spec fn wf(self) -> bool {
        self.cap >= 1 && self.buf@.len() <= self.cap
    }

    /// The fixed capacity.
    pub closed spec fn capacity_spec(self) -> nat {
        self.cap as nat
    }

    /// Creates an empty ring of the given capacity.
    pub fn new(capacity: usize) -> (ring: OverwriteRing)
        requires
            capacity >= 1,
        ensures
            ring.wf(),
            ring@ == Seq::<i64>::empty(),
            ring.capacity_spec() == capacity,
    {
        OverwriteRing { buf: Vec::new(), cap: capacity }
    }

    /// Pushes one sample; never fails. A full ring evicts its oldest sample
    /// first.
    pub fn push(&mut self, x: i64)
        requires
            old(self).wf(),
        ensures
            final(self).wf(),
            final(self)@ == ring_push(old(self)@, old(self).capacity_spec(), x),
            final(self).capacity_spec() == old(self).capacity_spec(),
    {
        if self.buf.len() == self.cap {
            self.buf.remove(0);
            assert(self.buf@ =~= old(self).buf@.skip(1));
        }
        self.buf.push(x);
    }

    /// Pushes a whole block, oldest first.
    pub fn push_all(&mut self, xs: &Vec<i64>)
        requires
            old(self).wf(),
        ensures
            final(self).wf(),
            final(self)@ == ring_push_all(old(self)@, old(self).capacity_spec(), xs@),
            final(self).capacity_spec() == old(self).capacity_spec(),
    {
        let ghost cap = self.capacity_spec();
        let mut i: usize = 0;
        while i < xs.len()
            invariant
                i <= xs@.len(),
                self.wf(),
                self.capacity_spec() == cap,
                self@ == ring_push_all(old(self)@, cap, xs@.take(i as int)),
            decreases xs@.len() - i,
        {
            proof {
                lemma_ring_push_all_snoc(old(self)@, cap, xs@.take(i as int), xs@[i as int]);
                assert(xs@.take(i as int).push(xs@[i as int]) =~= xs@.take(i + 1));
            }
            self.push(xs[i]);
            i = i + 1;
        }
        proof {
            assert(xs@.take(xs@.len() as int) =~= xs@);
        }
    }

    /// How many samples the ring holds now.
    pub fn len(&self) -> (n: usize)
        ensures
            n == self@.len(),
    {
        self.buf.len()
    }

    /// The fixed capacity.
    pub fn capacity(&self) -> (c: usize)
        ensures
            c == self.capacity_spec(),
    {
        self.cap
    }

    /// Copies out the held samples, oldest first, for a display refresh.
    pub fn snapshot(&self) -> (out: Vec<i64>)
        ensures
            out@ == self@,
    {
        let mut out: Vec<i64> = Vec::new();
        let mut i: usize = 0;
        while i < self.buf.len()
            invariant
                i <= self.buf@.len(),
                out@ =~= self.buf@.take(i as int),
            decreases self.buf@.len() - i,
        {
            out.push(self.buf[i]);
            i = i + 1;
        }
        proof {
            assert(self.buf@.take(self.buf@.len() as int) =~= self.buf@);
        }
        out
    }
}

} // verus!

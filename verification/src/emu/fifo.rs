//! A fixed-capacity byte ring, shared between the emulated console
//! and the physical one.

use vstd::prelude::*;

verus! {

pub struct Fifo<const CAP: usize> {
    pub buf: Vec<u8>,
    pub head: usize,
    pub num: usize,
}

/// `(h + i) % c` hits each slot once while `i` runs over a window
/// shorter than `c`.
proof fn lemma_ring_distinct(h: int, i: int, j: int, c: int)
    by (nonlinear_arith)
    requires
        c > 0,
        h >= 0,
        0 <= i < c,
        0 <= j < c,
    ensures
        ((h + i) % c == (h + j) % c) <==> (i == j),
{
}

/// Advancing the head by one step commutes with the ring index.
proof fn lemma_ring_advance(h: int, i: int, c: int)
    by (nonlinear_arith)
    requires
        c > 0,
        h >= 0,
        i >= 0,
    ensures
        ((h + 1) % c + i) % c == (h + 1 + i) % c,
{
}

impl<const CAP: usize> Fifo<CAP> {
    pub open spec fn wf(self) -> bool {
        &&& 0 < CAP <= 0xffff
        &&& self.buf@.len() == CAP
        &&& self.head < CAP
        &&& self.num <= CAP
    }

    /// The buffered bytes, oldest first.
    pub open spec fn view(self) -> Seq<u8> {
        Seq::new(self.num as nat, |i: int| self.buf@[(self.head + i) % (CAP as int)])
    }

    /// An empty ring.
    pub fn new() -> (r: Fifo<CAP>)
        requires
            0 < CAP <= 0xffff,
        ensures
            r.wf(),
            r.view() == Seq::<u8>::empty(),
    {
        let mut buf: Vec<u8> = Vec::new();
        let mut i: usize = 0;
        while i < CAP
            invariant
                buf@.len() == i,
                i <= CAP,
            decreases CAP - i,
        {
            buf.push(0);
            i = i + 1;
        }
        let r = Fifo { buf, head: 0, num: 0 };
        proof {
            assert(r.view() =~= Seq::<u8>::empty());
        }
        r
    }

    pub fn is_empty(&self) -> (r: bool)
        ensures
            r == (self.view().len() == 0),
    {
        self.num == 0
    }

    pub fn is_full(&self) -> (r: bool)
        requires
            self.wf(),
        ensures
            r == (self.view().len() == CAP as int),
    {
        self.num == CAP
    }

    /// Append one byte. The ring must have room: pushing into a
    /// full ring is a fatal caller error.
    pub fn push(&mut self, value: u8)
        requires
            old(self).wf(),
            old(self).view().len() < CAP as int,
        ensures
            final(self).wf(),
            final(self).view() == old(self).view().push(value),
    {
        let slot = (self.head + self.num) % CAP;
        self.buf[slot] = value;
        self.num = self.num + 1;
        proof {
            let c = CAP as int;
            let h = old(self).head as int;
            let n = old(self).num as int;
            assert(0 <= (h + n) % c < c) by (nonlinear_arith)
                requires
                    c > 0,
                    h >= 0,
                    n >= 0,
            ;
            assert forall|i: int| 0 <= i < self.num implies self.view()[i] == old(
                self,
            ).view().push(value)[i] by {
                if i < n {
                    lemma_ring_distinct(h, i, n, c);
                    if n < c {
                        assert((h + i) % c != (h + n) % c);
                    }
                } else {
                    assert(i == n);
                }
            }
            assert(self.view() =~= old(self).view().push(value));
        }
    }

    /// Remove and return the oldest byte. The ring must be
    /// non-empty.
    pub fn pop(&mut self) -> (r: u8)
        requires
            old(self).wf(),
            old(self).view().len() > 0,
        ensures
            final(self).wf(),
            r == old(self).view()[0],
            final(self).view() == old(self).view().subrange(1, old(self).view().len() as int),
    {
        let ret = self.buf[self.head];
        self.head = (self.head + 1) % CAP;
        self.num = self.num - 1;
        proof {
            let c = CAP as int;
            let h = old(self).head as int;
            assert(0 <= (h + 1) % c < c) by (nonlinear_arith)
                requires
                    c > 0,
                    h >= 0,
            ;
            assert((h + 0) % c == h % c && h % c == h) by (nonlinear_arith)
                requires
                    c > 0,
                    0 <= h < c,
            ;
            assert forall|i: int| 0 <= i < self.num implies self.view()[i] == old(
                self,
            ).view().subrange(1, old(self).view().len() as int)[i] by {
                lemma_ring_advance(h, i, c);
            }
            assert(self.view() =~= old(self).view().subrange(1, old(self).view().len() as int));
        }
        ret
    }
}

} // verus!

//! Physical frame allocator: a bitmap over a contiguous
//! host-physical range, handing out 4 KiB-aligned frames.
//!
//! The embedder zeroes each frame it receives before use; freeing a
//! frame that is not allocated is a double free, a fatal caller
//! error excluded here by precondition.

use vstd::prelude::*;

use crate::addr::PAGE_SIZE;

verus! {

pub struct PhysFrameAllocator {
    /// First frame of the managed range, page-aligned.
    pub base: usize,
    /// One mark per frame; a set mark means allocated.
    pub bitmap: Vec<bool>,
}

impl PhysFrameAllocator {
    pub open spec fn wf(self) -> bool {
        &&& self.base % PAGE_SIZE == 0
        &&& self.base + self.bitmap@.len() * PAGE_SIZE <= usize::MAX
    }

    /// Whether frame `i` of the range is allocated.
    pub open spec fn spec_allocated(self, i: int) -> bool {
        0 <= i < self.bitmap@.len() && self.bitmap@[i]
    }

    /// A free allocator over `frames` frames starting at `base`.
    pub fn new(base: usize, frames: usize) -> (r: PhysFrameAllocator)
        requires
            base % PAGE_SIZE == 0,
            base + frames * PAGE_SIZE <= usize::MAX,
        ensures
            r.wf(),
            r.base == base,
            r.bitmap@.len() == frames,
            forall|i: int| 0 <= i < frames ==> !r.spec_allocated(i),
    {
        let mut bitmap: Vec<bool> = Vec::new();
        let mut i: usize = 0;
        while i < frames
            invariant
                bitmap@.len() == i,
                i <= frames,
                forall|k: int| 0 <= k < i ==> !bitmap@[k],
            decreases frames - i,
        {
            bitmap.push(false);
            i = i + 1;
        }
        PhysFrameAllocator { base, bitmap }
    }

    /// Hand out the lowest free frame: a page-aligned host-physical
    /// address inside the managed range that was free and is now
    /// marked allocated. Nothing changes when every frame is taken.
    pub fn allocate_frame(&mut self) -> (r: Option<usize>)
        requires
            old(self).wf(),
        ensures
            final(self).wf(),
            final(self).base == old(self).base,
            final(self).bitmap@.len() == old(self).bitmap@.len(),
            r is None ==> (forall|i: int|
                0 <= i < old(self).bitmap@.len() ==> old(self).spec_allocated(i)) && *final(self)
                == *old(self),
            r matches Some(pa) ==> ({
                let i = (pa - old(self).base) as int / (PAGE_SIZE as int);
                &&& pa % PAGE_SIZE == 0
                &&& old(self).base <= pa
                &&& pa + PAGE_SIZE <= old(self).base + old(self).bitmap@.len() * PAGE_SIZE
                &&& !old(self).spec_allocated(i)
                &&& (forall|k: int| 0 <= k < i ==> old(self).spec_allocated(k))
                &&& final(self).bitmap@ == old(self).bitmap@.update(i, true)
            }),
    {
        let n = self.bitmap.len();
        let mut i: usize = 0;
        while i < n
            invariant
                self.wf(),
                *self == *old(self),
                n == self.bitmap@.len(),
                i <= n,
                forall|k: int| 0 <= k < i ==> self.spec_allocated(k),
            decreases n - i,
        {
            if !self.bitmap[i] {
                self.bitmap[i] = true;
                let pa = self.base + i * PAGE_SIZE;
                proof {
                    assert(i * 4096 + 4096 == (i + 1) * 4096) by (nonlinear_arith);
                    assert((i + 1) * 4096 <= n * 4096) by (nonlinear_arith)
                        requires
                            i < n,
                    ;
                    assert(0 <= i * 4096) by (nonlinear_arith)
                        requires
                            i >= 0,
                    ;
                    assert((self.base + i * 4096) % 4096 == 0) by (nonlinear_arith)
                        requires
                            self.base % 4096 == 0,
                            i >= 0,
                    ;
                    assert((self.base + i * 4096 - self.base) as int / 4096 == i)
                        by (nonlinear_arith)
                        requires
                            i >= 0,
                    ;
                }
                return Some(pa);
            }
            i = i + 1;
        }
        None
    }

    /// Return one frame. Only an address this allocator handed out
    /// and that is still allocated may come back: freeing anything
    /// else is a double free, which is fatal.
    pub fn deallocate_frame(&mut self, pa: usize)
        requires
            old(self).wf(),
            pa % PAGE_SIZE == 0,
            old(self).base <= pa,
            (pa - old(self).base) as int / (PAGE_SIZE as int) < old(self).bitmap@.len(),
            old(self).spec_allocated((pa - old(self).base) as int / (PAGE_SIZE as int)),
        ensures
            final(self).wf(),
            final(self).base == old(self).base,
            final(self).bitmap@ == old(self).bitmap@.update(
                (pa - old(self).base) as int / (PAGE_SIZE as int),
                false,
            ),
    {
        let i = (pa - self.base) / PAGE_SIZE;
        self.bitmap[i] = false;
    }

    /// How many frames are currently free.
    pub fn free_frames(&self) -> (r: usize)
        requires
            self.wf(),
        ensures
            r <= self.bitmap@.len(),
    {
        let n = self.bitmap.len();
        let mut free: usize = 0;
        let mut i: usize = 0;
        while i < n
            invariant
                n == self.bitmap@.len(),
                i <= n,
                free <= i,
            decreases n - i,
        {
            if !self.bitmap[i] {
                free = free + 1;
            }
            i = i + 1;
        }
        free
    }
}

} // verus!

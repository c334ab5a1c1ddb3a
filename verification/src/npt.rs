//! The nested (stage-2) page table: a 4-level, 4 KiB-granule
//! translation of guest-physical addresses to host-physical ones.
//!
//! The table owns every frame it uses. Frame `i` of `frames` is the
//! 512-entry table living at host-physical `base + i * PAGE_SIZE`;
//! frame 0 is the root that the stage-2 translation-table base
//! register points at. A ghost sequence records the lookup level of
//! each frame, and the well-formedness invariant keeps the frames a
//! tree: every table descriptor points forward to exactly one frame
//! of the next level.

use vstd::prelude::*;

use crate::flags::MemFlags;
use crate::stage2::PageTableEntry;
use crate::stage2::PTE_ADDR_MASK;
use crate::stage2::PTE_NON_BLOCK;
use crate::stage2::PTE_VALID;
use crate::stage2::spec_attr_of_flags;

verus! {

/// Entries per table frame.
pub const ENTRIES_PER_TABLE: usize = 512;

/// One past the largest host-physical address a descriptor can name.
pub const ADDR_LIMIT: u64 = 0x1_0000_0000_0000;

/// Index bits used at lookup level `d`: bits 39, 30, 21 and 12 upward.
pub open spec fn shift_of(d: int) -> u64 {
    if d == 0 { 39 } else if d == 1 { 30 } else if d == 2 { 21 } else { 12 }
}

/// The table index a guest-physical address selects at level `d`.
pub open spec fn spec_idx(g: u64, d: int) -> int {
    ((g >> shift_of(d)) & 0x1ff) as int
}

/// A table descriptor: valid and pointing at a next-level table
/// (at levels 0..2).
pub open spec fn is_table_entry(e: u64) -> bool {
    e & PTE_VALID != 0 && e & PTE_NON_BLOCK != 0
}

/// Each level's index is one of the 512 slots, and the page offset
/// is below the page size.
pub proof fn lemma_idx_bounds(g: u64)
    by (bit_vector)
    ensures
        (g >> 39) & 0x1ff < 512,
        (g >> 30) & 0x1ff < 512,
        (g >> 21) & 0x1ff < 512,
        (g >> 12) & 0x1ff < 512,
        g & 0xfff < 4096,
{
}

/// The absent descriptor fails every bit test.
pub proof fn lemma_zero_entry()
    by (bit_vector)
    ensures
        0u64 & 1 == 0,
        0u64 & 2 == 0,
{
}

pub struct NestedPageTable {
    /// Host-physical address of frame 0, page-aligned.
    pub base: usize,
    /// The table frames; frame `i` lives at `base + i * PAGE_SIZE`.
    pub frames: Vec<Vec<u64>>,
    /// Lookup level of each frame; frame 0 is the level-0 root.
    pub levels: Ghost<Seq<int>>,
}

impl NestedPageTable {
    /// The descriptor at slot `j` of frame `i`.
    pub open spec fn entry(self, i: int, j: int) -> u64 {
        self.frames@[i]@[j]
    }

    /// The frame index a table descriptor points at.
    pub open spec fn child_of(self, e: u64) -> int {
        ((e & PTE_ADDR_MASK) - self.base) / (crate::addr::PAGE_SIZE as int)
    }

    /// The frame index a table descriptor at `(i, j)` points at.
    pub open spec fn target(self, i: int, j: int) -> int {
        self.child_of(self.entry(i, j))
    }

    pub open spec fn frames_wf(self) -> bool {
        &&& 1 <= self.frames@.len()
        &&& self.base % crate::addr::PAGE_SIZE == 0
        &&& self.base + self.frames@.len() * crate::addr::PAGE_SIZE <= ADDR_LIMIT
        &&& self.base + self.frames@.len() * crate::addr::PAGE_SIZE <= usize::MAX
        &&& (forall|i: int|
            0 <= i < self.frames@.len() ==> (#[trigger] self.frames@[i])@.len()
                == ENTRIES_PER_TABLE)
        &&& self.levels@.len() == self.frames@.len()
        &&& self.levels@[0] == 0
        &&& (forall|i: int| 0 <= i < self.levels@.len() ==> 0 <= #[trigger] self.levels@[i] <= 3)
        &&& (forall|i: int| 1 <= i < self.levels@.len() ==> #[trigger] self.levels@[i] >= 1)
    }

    /// Every table descriptor points forward at a frame of the next
    /// level, and its address field is exactly that frame's address.
    pub open spec fn tables_wf(self) -> bool {
        forall|i: int, j: int|
            0 <= i < self.frames@.len() && 0 <= j < ENTRIES_PER_TABLE && self.levels@[i] < 3
                && is_table_entry(#[trigger] self.entry(i, j)) ==> {
                &&& 1 <= self.target(i, j) < self.frames@.len()
                &&& self.levels@[self.target(i, j)] == self.levels@[i] + 1
                &&& (self.entry(i, j) & PTE_ADDR_MASK) == self.base + self.target(i, j)
                    * crate::addr::PAGE_SIZE
            }
    }

    /// No two table descriptors point at the same frame.
    pub open spec fn unique_wf(self) -> bool {
        forall|i1: int, j1: int, i2: int, j2: int|
            0 <= i1 < self.frames@.len() && 0 <= j1 < ENTRIES_PER_TABLE && self.levels@[i1] < 3
                && 0 <= i2 < self.frames@.len() && 0 <= j2 < ENTRIES_PER_TABLE
                && self.levels@[i2] < 3 && is_table_entry(self.entry(i1, j1))
                && is_table_entry(self.entry(i2, j2)) && #[trigger] self.target(i1, j1)
                == #[trigger] self.target(i2, j2) ==> i1 == i2 && j1 == j2
    }

    /// Every non-zero descriptor is valid: a table or block descriptor
    /// at levels 0..2 (no blocks at level 0), a page descriptor at
    /// level 3.
    pub open spec fn entries_wf(self) -> bool {
        forall|i: int, j: int|
            0 <= i < self.frames@.len() && 0 <= j < ENTRIES_PER_TABLE && #[trigger] self.entry(
                i,
                j,
            ) != 0 ==> {
                &&& self.entry(i, j) & PTE_VALID != 0
                &&& (self.levels@[i] == 3 ==> self.entry(i, j) & PTE_NON_BLOCK != 0)
                &&& (self.levels@[i] == 0 ==> self.entry(i, j) & PTE_NON_BLOCK != 0)
            }
    }

    pub open spec fn wf(self) -> bool {
        self.frames_wf() && self.tables_wf() && self.unique_wf() && self.entries_wf()
    }

    /// The translation walk from frame `i` at level `d`: what
    /// host-physical address `g` reaches, and through which leaf
    /// descriptor.
    pub open spec fn spec_walk(self, i: int, d: int, g: u64) -> Option<(int, u64)>
        decreases 3 - d,
    {
        if !(0 <= d <= 3) {
            None
        } else {
            let e = self.entry(i, spec_idx(g, d));
            if e & PTE_VALID == 0 {
                None
            } else if d == 3 {
                if e & PTE_NON_BLOCK != 0 {
                    Some((((e & PTE_ADDR_MASK) + (g & 0xfff)) as int, e))
                } else {
                    None
                }
            } else if e & PTE_NON_BLOCK != 0 {
                self.spec_walk(self.child_of(e), d + 1, g)
            } else if d == 2 {
                Some((((e & PTE_ADDR_MASK) + (g & 0x1f_ffff)) as int, e))
            } else if d == 1 {
                Some((((e & PTE_ADDR_MASK) + (g & 0x3fff_ffff)) as int, e))
            } else {
                None
            }
        }
    }

    /// Stage-2 translation of `g`.
    pub open spec fn spec_translate(self, g: u64) -> Option<(int, u64)> {
        self.spec_walk(0, 0, g)
    }

    /// Whether a fresh 4 KiB mapping may be installed for `g` from
    /// frame `i` at level `d`: the walk runs only through absent
    /// entries or table descriptors, and the final slot is free.
    pub open spec fn spec_can_map(self, i: int, d: int, g: u64) -> bool
        decreases 3 - d,
    {
        if !(0 <= d <= 3) {
            false
        } else {
            let e = self.entry(i, spec_idx(g, d));
            if e == 0 {
                true
            } else if d == 3 {
                false
            } else if is_table_entry(e) {
                self.spec_can_map(self.child_of(e), d + 1, g)
            } else {
                false
            }
        }
    }

    /// Whether a fresh 4 KiB mapping may be installed for `g`.
    pub open spec fn spec_mappable(self, g: u64) -> bool {
        self.spec_can_map(0, 0, g)
    }

    /// A fresh table with an all-zero root frame at `base`.
    pub fn new(base: usize) -> (r: NestedPageTable)
        requires
            base % crate::addr::PAGE_SIZE == 0,
            base + crate::addr::PAGE_SIZE <= ADDR_LIMIT,
            base + crate::addr::PAGE_SIZE <= usize::MAX,
        ensures
            r.wf(),
            r.base == base,
            r.frames@.len() == 1,
            forall|g: u64| r.spec_translate(g) is None,
            forall|g: u64| r.spec_mappable(g),
    {
        let mut root: Vec<u64> = Vec::new();
        let mut n: usize = 0;
        while n < ENTRIES_PER_TABLE
            invariant
                root@.len() == n,
                n <= ENTRIES_PER_TABLE,
                forall|j: int| 0 <= j < n ==> root@[j] == 0,
            decreases ENTRIES_PER_TABLE - n,
        {
            root.push(0);
            n = n + 1;
        }
        let mut frames: Vec<Vec<u64>> = Vec::new();
        frames.push(root);
        let ghost lv: Seq<int> = seq![0int];
        let r = NestedPageTable { base, frames, levels: Ghost(lv) };
        proof {
            lemma_zero_entry();
            assert forall|j: int| 0 <= j < 512 implies #[trigger] r.entry(0, j) == 0 by {}
            assert forall|g: u64| #[trigger] r.spec_translate(g) is None by {
                lemma_idx_bounds(g);
                assert(r.entry(0, spec_idx(g, 0)) == 0);
            }
            assert forall|g: u64| #[trigger] r.spec_mappable(g) by {
                lemma_idx_bounds(g);
                assert(r.entry(0, spec_idx(g, 0)) == 0);
            }
        }
        r
    }

    /// The host-physical root to install in the stage-2
    /// translation-table base register.
    pub fn root_paddr(&self) -> (r: usize)
        ensures
            r == self.base,
    {
        self.base
    }

    /// How a table looks after a fresh next-level frame was hung off
    /// slot `(i, j)`: one zero frame appended, that one slot now a
    /// table descriptor pointing at it, everything else untouched.
    pub open spec fn alloc_rel(old_pt: Self, new_pt: Self, i: int, j: int) -> bool {
        &&& old_pt.wf()
        &&& new_pt.wf()
        &&& new_pt.base == old_pt.base
        &&& new_pt.frames@.len() == old_pt.frames@.len() + 1
        &&& new_pt.levels@ == old_pt.levels@.push(old_pt.levels@[i] + 1)
        &&& 0 <= i < old_pt.frames@.len()
        &&& 0 <= j < ENTRIES_PER_TABLE
        &&& old_pt.levels@[i] < 3
        &&& old_pt.entry(i, j) == 0
        &&& (forall|f: int, s: int|
            0 <= f < old_pt.frames@.len() && 0 <= s < ENTRIES_PER_TABLE && !(f == i && s == j)
                ==> new_pt.entry(f, s) == #[trigger] old_pt.entry(f, s))
        &&& (forall|s: int|
            0 <= s < ENTRIES_PER_TABLE ==> #[trigger] new_pt.entry(
                old_pt.frames@.len() as int,
                s,
            ) == 0)
        &&& is_table_entry(new_pt.entry(i, j))
        &&& new_pt.target(i, j) == old_pt.frames@.len()
    }

    /// Hanging an empty table off an absent slot changes no
    /// translation and forbids no mapping: the fresh frame answers
    /// every lookup with an absent descriptor, exactly as the absent
    /// slot did.
    pub proof fn lemma_alloc_preserves(
        old_pt: Self,
        new_pt: Self,
        i: int,
        j: int,
        f: int,
        d: int,
        g: u64,
    )
        requires
            Self::alloc_rel(old_pt, new_pt, i, j),
            0 <= f < old_pt.frames@.len(),
            old_pt.levels@[f] == d,
        ensures
            new_pt.spec_walk(f, d, g) == old_pt.spec_walk(f, d, g),
            new_pt.spec_can_map(f, d, g) == old_pt.spec_can_map(f, d, g),
        decreases 3 - d,
    {
        lemma_idx_bounds(g);
        lemma_zero_entry();
        let s = spec_idx(g, d);
        if f == i && s == j {
            let k = old_pt.frames@.len() as int;
            assert(old_pt.spec_walk(f, d, g) is None);
            assert(old_pt.spec_can_map(f, d, g));
            assert(new_pt.entry(k, spec_idx(g, d + 1)) == 0);
            assert(new_pt.spec_walk(f, d, g) == new_pt.spec_walk(k, d + 1, g));
            assert(new_pt.spec_walk(k, d + 1, g) is None);
            assert(new_pt.spec_can_map(f, d, g) == new_pt.spec_can_map(k, d + 1, g));
            assert(new_pt.spec_can_map(k, d + 1, g));
        } else {
            let e = old_pt.entry(f, s);
            assert(new_pt.entry(f, s) == e);
            if d < 3 && e & PTE_VALID != 0 && e & PTE_NON_BLOCK != 0 {
                let c = old_pt.child_of(e);
                assert(old_pt.target(f, s) == c);
                assert(new_pt.child_of(e) == c);
                Self::lemma_alloc_preserves(old_pt, new_pt, i, j, c, d + 1, g);
            }
        }
    }

    /// A 512-entry zero frame.
    fn zero_frame() -> (r: Vec<u64>)
        ensures
            r@.len() == ENTRIES_PER_TABLE,
            forall|s: int| 0 <= s < ENTRIES_PER_TABLE ==> r@[s] == 0,
    {
        let mut fr: Vec<u64> = Vec::new();
        let mut n: usize = 0;
        while n < ENTRIES_PER_TABLE
            invariant
                fr@.len() == n,
                n <= ENTRIES_PER_TABLE,
                forall|s: int| 0 <= s < n ==> fr@[s] == 0,
            decreases ENTRIES_PER_TABLE - n,
        {
            fr.push(0);
            n = n + 1;
        }
        fr
    }

    /// Follow the table descriptor in slot `(i, j)`, allocating the
    /// next-level frame first when the slot is absent. Returns the
    /// frame index of the next-level table. No translation changes
    /// and no mappable page becomes unmappable.
    pub fn ensure_table(&mut self, i: usize, j: usize) -> (k: usize)
        requires
            old(self).wf(),
            i < old(self).frames@.len(),
            j < ENTRIES_PER_TABLE,
            old(self).levels@[i as int] < 3,
            old(self).entry(i as int, j as int) == 0 || is_table_entry(
                old(self).entry(i as int, j as int),
            ),
            old(self).base + (old(self).frames@.len() + 1) * crate::addr::PAGE_SIZE <= ADDR_LIMIT,
            old(self).base + (old(self).frames@.len() + 1) * crate::addr::PAGE_SIZE <= usize::MAX,
        ensures
            final(self).wf(),
            final(self).base == old(self).base,
            old(self).frames@.len() <= final(self).frames@.len() <= old(self).frames@.len() + 1,
            1 <= k,
            (k as int) < final(self).frames@.len(),
            final(self).levels@[k as int] == old(self).levels@[i as int] + 1,
            is_table_entry(final(self).entry(i as int, j as int)),
            final(self).target(i as int, j as int) == k as int,
            forall|f: int, s: int|
                0 <= f < old(self).frames@.len() && 0 <= s < ENTRIES_PER_TABLE && !(f == i && s
                    == j) ==> final(self).entry(f, s) == #[trigger] old(self).entry(f, s),
            forall|f: int| 0 <= f < old(self).frames@.len() ==> final(self).levels@[f] == old(
                self,
            ).levels@[f],
            forall|g: u64| #[trigger] final(self).spec_translate(g) == old(self).spec_translate(g),
            forall|g: u64| #[trigger] final(self).spec_mappable(g) == old(self).spec_mappable(g),
        decreases 0int,
    {
        let e = self.frames[i][j];
        if e != 0 {
            let pa = (e & PTE_ADDR_MASK) as usize;
            let k = (pa - self.base) / crate::addr::PAGE_SIZE;
            proof {
                let t = self.target(i as int, j as int);
                assert(self.entry(i as int, j as int) == e);
                assert((self.entry(i as int, j as int) & PTE_ADDR_MASK) == self.base + t
                    * crate::addr::PAGE_SIZE);
                assert(self.base + t * crate::addr::PAGE_SIZE <= self.base + self.frames@.len()
                    * crate::addr::PAGE_SIZE) by (nonlinear_arith)
                    requires
                        t < self.frames@.len(),
                ;
                assert(pa == self.base + t * 4096);
                assert((self.base + t * 4096 - self.base) / 4096 == t) by (nonlinear_arith)
                    requires
                        t >= 0,
                ;
            }
            k
        } else {
            let ghost old_pt = *self;
            let k = self.frames.len();
            let paddr = self.base + k * crate::addr::PAGE_SIZE;
            proof {
                assert(self.base + k * 4096 + 4096 == self.base + (k + 1) * 4096) by (nonlinear_arith);
                assert((self.base + k * 4096) % 4096 == 0) by (nonlinear_arith)
                    requires
                        self.base % 4096 == 0,
                        k >= 0,
                ;
                let p = paddr;
                assert(p % 4096 == 0 ==> p & 0xfff == 0) by (bit_vector);
            }
            let te = PageTableEntry::new_table(paddr);
            self.frames[i][j] = te.0;
            let fr = Self::zero_frame();
            self.frames.push(fr);
            proof {
                self.levels@ = self.levels@.push(old_pt.levels@[i as int] + 1);
            }
            proof {
                let new_pt = *self;
                let tv = te.0;
                let pav = paddr as u64;
                assert(tv & 0xffff_ffff_f000u64 == pav && pav & 0xfffu64 == 0) by (bit_vector)
                    requires
                        tv == (0x2u64 | 0x1 | 0x3c | 0x40 | 0x80 | 0x400 | 0x200 | 0x100) | pav,
                        pav % 4096 == 0,
                        pav < 0x1_0000_0000_0000u64,
                ;
                assert((te.0 & PTE_ADDR_MASK) == paddr);
                assert((paddr - new_pt.base) / 4096 == k) by (nonlinear_arith)
                    requires
                        paddr == new_pt.base + k * 4096,
                        k >= 0,
                ;
                assert(new_pt.target(i as int, j as int) == k as int);
                lemma_zero_entry();
                assert(new_pt.frames_wf()) by {
                    assert(forall|f: int|
                        0 <= f < new_pt.frames@.len() ==> (#[trigger] new_pt.frames@[f])@.len()
                            == ENTRIES_PER_TABLE);
                }
                assert(new_pt.tables_wf()) by {
                    assert forall|f: int, s: int|
                        0 <= f < new_pt.frames@.len() && 0 <= s < ENTRIES_PER_TABLE
                            && new_pt.levels@[f] < 3 && is_table_entry(
                            #[trigger] new_pt.entry(f, s),
                        ) implies {
                        &&& 1 <= new_pt.target(f, s) < new_pt.frames@.len()
                        &&& new_pt.levels@[new_pt.target(f, s)] == new_pt.levels@[f] + 1
                        &&& (new_pt.entry(f, s) & PTE_ADDR_MASK) == new_pt.base + new_pt.target(
                            f,
                            s,
                        ) * crate::addr::PAGE_SIZE
                    } by {
                        if f == i as int && s == j as int {
                        } else if f == k as int {
                            assert(new_pt.entry(f, s) == 0);
                        } else {
                            assert(new_pt.entry(f, s) == old_pt.entry(f, s));
                            assert(old_pt.target(f, s) == new_pt.target(f, s));
                        }
                    }
                }
                assert(new_pt.unique_wf()) by {
                    assert forall|i1: int, j1: int, i2: int, j2: int|
                        0 <= i1 < new_pt.frames@.len() && 0 <= j1 < ENTRIES_PER_TABLE
                            && new_pt.levels@[i1] < 3 && 0 <= i2 < new_pt.frames@.len() && 0 <= j2
                            < ENTRIES_PER_TABLE && new_pt.levels@[i2] < 3 && is_table_entry(
                            new_pt.entry(i1, j1),
                        ) && is_table_entry(new_pt.entry(i2, j2)) && #[trigger] new_pt.target(
                            i1,
                            j1,
                        ) == #[trigger] new_pt.target(i2, j2) implies i1 == i2 && j1 == j2 by {
                        if i1 == k as int || i2 == k as int {
                            assert(new_pt.entry(k as int, j1) == 0);
                            assert(new_pt.entry(k as int, j2) == 0);
                        } else {
                            let inew = i as int;
                            let jnew = j as int;
                            if (i1 == inew && j1 == jnew) && !(i2 == inew && j2 == jnew) {
                                assert(new_pt.entry(i2, j2) == old_pt.entry(i2, j2));
                                assert(old_pt.target(i2, j2) < old_pt.frames@.len());
                            } else if !(i1 == inew && j1 == jnew) && (i2 == inew && j2 == jnew) {
                                assert(new_pt.entry(i1, j1) == old_pt.entry(i1, j1));
                                assert(old_pt.target(i1, j1) < old_pt.frames@.len());
                            } else if !(i1 == inew && j1 == jnew) && !(i2 == inew && j2 == jnew) {
                                assert(new_pt.entry(i1, j1) == old_pt.entry(i1, j1));
                                assert(new_pt.entry(i2, j2) == old_pt.entry(i2, j2));
                                assert(old_pt.target(i1, j1) == old_pt.target(i2, j2));
                            }
                        }
                    }
                }
                assert(new_pt.entries_wf()) by {
                    assert forall|f: int, s: int|
                        0 <= f < new_pt.frames@.len() && 0 <= s < ENTRIES_PER_TABLE
                            && #[trigger] new_pt.entry(f, s) != 0 implies {
                        &&& new_pt.entry(f, s) & PTE_VALID != 0
                        &&& (new_pt.levels@[f] == 3 ==> new_pt.entry(f, s) & PTE_NON_BLOCK != 0)
                        &&& (new_pt.levels@[f] == 0 ==> new_pt.entry(f, s) & PTE_NON_BLOCK != 0)
                    } by {
                        if f == i as int && s == j as int {
                        } else if f == k as int {
                            assert(new_pt.entry(f, s) == 0);
                        } else {
                            assert(new_pt.entry(f, s) == old_pt.entry(f, s));
                        }
                    }
                }
                assert(Self::alloc_rel(old_pt, new_pt, i as int, j as int));
                assert forall|g: u64| #[trigger] self.spec_translate(g) == old(
                    self,
                ).spec_translate(g) by {
                    Self::lemma_alloc_preserves(old_pt, new_pt, i as int, j as int, 0, 0, g);
                }
                assert forall|g: u64| #[trigger] self.spec_mappable(g) == old(self).spec_mappable(
                    g,
                ) by {
                    Self::lemma_alloc_preserves(old_pt, new_pt, i as int, j as int, 0, 0, g);
                }
            }
            k
        }
    }
}


/// The frame the mapping chain visits at level `d`.
pub open spec fn chain_at(c0: int, c1: int, c2: int, c3: int, d: int) -> int {
    if d == 0 { c0 } else if d == 1 { c1 } else if d == 2 { c2 } else { c3 }
}

/// The slot the mapping chain uses at level `d`.
pub open spec fn slot_at(j0: int, j1: int, j2: int, j3: int, d: int) -> int {
    if d == 0 { j0 } else if d == 1 { j1 } else if d == 2 { j2 } else { j3 }
}

/// Whether `g` selects the chain's slots at every level from `d` on.
pub open spec fn tail_match(g: u64, d: int, j0: int, j1: int, j2: int, j3: int) -> bool {
    &&& (d <= 0 ==> spec_idx(g, 0) == j0)
    &&& (d <= 1 ==> spec_idx(g, 1) == j1)
    &&& (d <= 2 ==> spec_idx(g, 2) == j2)
    &&& (d <= 3 ==> spec_idx(g, 3) == j3)
}

/// Two addresses below the translation range share a page exactly
/// when they select the same slot at every level.
pub proof fn lemma_same_page_iff_indices(g: u64, p: u64)
    by (bit_vector)
    requires
        g < 0x1_0000_0000_0000,
        p < 0x1_0000_0000_0000,
    ensures
        (g >> 12 == p >> 12) <==> ((g >> 39) & 0x1ff == (p >> 39) & 0x1ff && (g >> 30) & 0x1ff == (
        p >> 30) & 0x1ff && (g >> 21) & 0x1ff == (p >> 21) & 0x1ff && (g >> 12) & 0x1ff == (p >> 12)
            & 0x1ff),
{
}

impl NestedPageTable {
    /// How a table looks after one page descriptor was written into
    /// slot `(c3, j3)` of a level-3 frame: that one slot holds a
    /// valid page descriptor, everything else is untouched.
    pub open spec fn leaf_rel(old_pt: Self, new_pt: Self, c3: int, j3: int) -> bool {
        &&& old_pt.wf()
        &&& new_pt.wf()
        &&& new_pt.base == old_pt.base
        &&& new_pt.frames@.len() == old_pt.frames@.len()
        &&& new_pt.levels@ == old_pt.levels@
        &&& 0 <= c3 < old_pt.frames@.len()
        &&& 0 <= j3 < ENTRIES_PER_TABLE
        &&& old_pt.levels@[c3] == 3
        &&& (forall|f: int, s: int|
            0 <= f < old_pt.frames@.len() && 0 <= s < ENTRIES_PER_TABLE && !(f == c3 && s == j3)
                ==> new_pt.entry(f, s) == #[trigger] old_pt.entry(f, s))
        &&& new_pt.entry(c3, j3) & PTE_VALID != 0
        &&& new_pt.entry(c3, j3) & PTE_NON_BLOCK != 0
    }

    /// Writing one page descriptor at the end of a mapping chain
    /// changes the walk of exactly the addresses that select the
    /// chain's slots at every level; every other walk, and every
    /// other page's mappability, is untouched.
    pub proof fn lemma_leaf_preserves(
        old_pt: Self,
        new_pt: Self,
        c0: int,
        c1: int,
        c2: int,
        c3: int,
        j0: int,
        j1: int,
        j2: int,
        j3: int,
        f: int,
        d: int,
        g: u64,
    )
        requires
            Self::leaf_rel(old_pt, new_pt, c3, j3),
            0 <= c0 < old_pt.frames@.len(),
            0 <= c1 < old_pt.frames@.len(),
            0 <= c2 < old_pt.frames@.len(),
            0 <= j0 < ENTRIES_PER_TABLE,
            0 <= j1 < ENTRIES_PER_TABLE,
            0 <= j2 < ENTRIES_PER_TABLE,
            old_pt.levels@[c0] == 0,
            old_pt.levels@[c1] == 1,
            old_pt.levels@[c2] == 2,
            is_table_entry(old_pt.entry(c0, j0)),
            old_pt.target(c0, j0) == c1,
            is_table_entry(old_pt.entry(c1, j1)),
            old_pt.target(c1, j1) == c2,
            is_table_entry(old_pt.entry(c2, j2)),
            old_pt.target(c2, j2) == c3,
            0 <= f < old_pt.frames@.len(),
            old_pt.levels@[f] == d,
        ensures
            (f == chain_at(c0, c1, c2, c3, d) && tail_match(g, d, j0, j1, j2, j3))
                ==> (new_pt.spec_walk(f, d, g) == Some::<(int, u64)>(
                (((new_pt.entry(c3, j3) & PTE_ADDR_MASK) + (g & 0xfff)) as int, new_pt.entry(c3, j3)),
            ) && !new_pt.spec_can_map(f, d, g)),
            !(f == chain_at(c0, c1, c2, c3, d) && tail_match(g, d, j0, j1, j2, j3))
                ==> (new_pt.spec_walk(f, d, g) == old_pt.spec_walk(f, d, g)
                && new_pt.spec_can_map(f, d, g) == old_pt.spec_can_map(f, d, g)),
        decreases 3 - d,
    {
        lemma_idx_bounds(g);
        lemma_zero_entry();
        let s = spec_idx(g, d);
        let cd = chain_at(c0, c1, c2, c3, d);
        if d == 3 {
            if !(f == c3 && s == j3) {
                assert(new_pt.entry(f, s) == old_pt.entry(f, s));
            }
        } else {
            assert(f != c3);
            let e = old_pt.entry(f, s);
            assert(new_pt.entry(f, s) == e);
            if e & PTE_VALID != 0 && e & PTE_NON_BLOCK != 0 {
                let c = old_pt.child_of(e);
                assert(old_pt.target(f, s) == c);
                assert(new_pt.child_of(e) == c);
                let jd = slot_at(j0, j1, j2, j3, d);
                let cnext = chain_at(c0, c1, c2, c3, d + 1);
                if f == cd && s == jd {
                    assert(c == cnext);
                } else {
                    if c == cnext {
                        assert(old_pt.target(f, s) == old_pt.target(cd, jd));
                        assert(false);
                    }
                }
                Self::lemma_leaf_preserves(
                    old_pt, new_pt, c0, c1, c2, c3, j0, j1, j2, j3, c, d + 1, g,
                );
            }
        }
    }
}


/// The descriptor `map_page` installs: the permission attributes of
/// `flags`, the access flag, the page (non-block) bit, and the
/// host-physical output address.
pub open spec fn spec_page_leaf(hpa: u64, flags: MemFlags) -> u64 {
    spec_attr_of_flags(flags) | crate::stage2::PTE_AF | PTE_NON_BLOCK | hpa
}

impl NestedPageTable {
    /// Install a 4 KiB mapping from guest-physical page `gpa` to
    /// host-physical page `hpa`. Afterwards every address of that
    /// page translates to `hpa` plus the page offset through the new
    /// descriptor, and every other address translates exactly as
    /// before.
    pub fn map_page(&mut self, gpa: u64, hpa: u64, flags: MemFlags)
        requires
            old(self).wf(),
            gpa < ADDR_LIMIT,
            gpa & 0xfff == 0,
            hpa & 0xfff == 0,
            hpa < ADDR_LIMIT,
            hpa <= usize::MAX,
            flags.read,
            old(self).spec_mappable(gpa),
            old(self).base + (old(self).frames@.len() + 3) * crate::addr::PAGE_SIZE <= ADDR_LIMIT,
            old(self).base + (old(self).frames@.len() + 3) * crate::addr::PAGE_SIZE <= usize::MAX,
        ensures
            final(self).wf(),
            final(self).base == old(self).base,
            old(self).frames@.len() <= final(self).frames@.len() <= old(self).frames@.len() + 3,
            forall|g: u64|
                g < ADDR_LIMIT ==> #[trigger] final(self).spec_translate(g) == (if g >> 12 == gpa
                    >> 12 {
                    Some(((hpa + (g & 0xfff)) as int, spec_page_leaf(hpa, flags)))
                } else {
                    old(self).spec_translate(g)
                }),
            forall|g: u64|
                g < ADDR_LIMIT && g >> 12 != gpa >> 12 ==> #[trigger] final(self).spec_mappable(g)
                    == old(self).spec_mappable(g),
            !final(self).spec_mappable(gpa),
    {
        proof {
            lemma_idx_bounds(gpa);
        }
        let j0 = ((gpa >> 39) & 0x1ff) as usize;
        let j1 = ((gpa >> 30) & 0x1ff) as usize;
        let j2 = ((gpa >> 21) & 0x1ff) as usize;
        let j3 = ((gpa >> 12) & 0x1ff) as usize;
        proof {
            lemma_zero_entry();
        }
        let i1 = self.ensure_table(0, j0);
        let ghost pt1 = *self;
        proof {
            assert(pt1.spec_mappable(gpa));
            assert(is_table_entry(pt1.entry(0, j0 as int)));
            assert(pt1.entry(0, j0 as int) != 0);
            assert(pt1.target(0, j0 as int) == i1 as int);
            assert(pt1.spec_can_map(i1 as int, 1, gpa));
            assert(pt1.entry(i1 as int, j1 as int) == 0 || is_table_entry(
                pt1.entry(i1 as int, j1 as int),
            ));
        }
        let i2 = self.ensure_table(i1, j1);
        let ghost pt2 = *self;
        proof {
            assert(pt2.entry(0, j0 as int) == pt1.entry(0, j0 as int));
            assert(pt2.spec_mappable(gpa));
            assert(pt2.target(0, j0 as int) == i1 as int);
            assert(pt2.spec_can_map(i1 as int, 1, gpa));
            assert(is_table_entry(pt2.entry(i1 as int, j1 as int)));
            assert(pt2.entry(i1 as int, j1 as int) != 0);
            assert(pt2.target(i1 as int, j1 as int) == i2 as int);
            assert(pt2.spec_can_map(i2 as int, 2, gpa));
            assert(pt2.entry(i2 as int, j2 as int) == 0 || is_table_entry(
                pt2.entry(i2 as int, j2 as int),
            ));
        }
        let i3 = self.ensure_table(i2, j2);
        let ghost pt3 = *self;
        proof {
            assert(pt3.entry(0, j0 as int) == pt2.entry(0, j0 as int));
            assert(pt3.entry(i1 as int, j1 as int) == pt2.entry(i1 as int, j1 as int));
            assert(pt3.spec_mappable(gpa));
            assert(pt3.target(0, j0 as int) == i1 as int);
            assert(pt3.target(i1 as int, j1 as int) == i2 as int);
            assert(pt3.target(i2 as int, j2 as int) == i3 as int);
            assert(pt3.spec_can_map(i1 as int, 1, gpa));
            assert(pt3.spec_can_map(i2 as int, 2, gpa));
            assert(pt3.spec_can_map(i3 as int, 3, gpa));
            assert(pt3.entry(i3 as int, j3 as int) == 0);
            assert((hpa as usize) as u64 == hpa);
            let hu = hpa as usize;
            assert(hu & 0xfff == 0) by (bit_vector)
                requires
                    (hu as u64) & 0xfff == 0,
            ;
        }
        let pte = PageTableEntry::new_page(hpa as usize, flags, false);
        self.frames[i3][j3] = pte.0;
        proof {
            let new_pt = *self;
            let av = spec_attr_of_flags(flags);
            crate::stage2::lemma_attr_of_flags_bits(flags);
            crate::stage2::lemma_attr_clear_of_addr(flags);
            let lv = pte.0;
            assert(lv == av | 0x400 | 2 | hpa);
            assert(lv & 0xffff_ffff_f000u64 == hpa && lv & 1 == av & 1 && lv & 2 == 2)
                by (bit_vector)
                requires
                    lv == av | 0x400 | 2 | hpa,
                    av & 0xffff_ffff_f000u64 == 0,
                    hpa & 0xfff == 0,
                    hpa < 0x1_0000_0000_0000u64,
            ;
            assert(lv & PTE_VALID != 0);
            assert(lv & PTE_NON_BLOCK != 0);
            assert(new_pt.frames_wf()) by {
                assert(forall|f: int|
                    0 <= f < new_pt.frames@.len() ==> (#[trigger] new_pt.frames@[f])@.len()
                        == ENTRIES_PER_TABLE);
            }
            assert(new_pt.tables_wf()) by {
                assert forall|f: int, s: int|
                    0 <= f < new_pt.frames@.len() && 0 <= s < ENTRIES_PER_TABLE
                        && new_pt.levels@[f] < 3 && is_table_entry(#[trigger] new_pt.entry(f, s))
                        implies {
                    &&& 1 <= new_pt.target(f, s) < new_pt.frames@.len()
                    &&& new_pt.levels@[new_pt.target(f, s)] == new_pt.levels@[f] + 1
                    &&& (new_pt.entry(f, s) & PTE_ADDR_MASK) == new_pt.base + new_pt.target(f, s)
                        * crate::addr::PAGE_SIZE
                } by {
                    assert(f != i3 as int);
                    assert(new_pt.entry(f, s) == pt3.entry(f, s));
                    assert(new_pt.target(f, s) == pt3.target(f, s));
                }
            }
            assert(new_pt.unique_wf()) by {
                assert forall|a1: int, b1: int, a2: int, b2: int|
                    0 <= a1 < new_pt.frames@.len() && 0 <= b1 < ENTRIES_PER_TABLE
                        && new_pt.levels@[a1] < 3 && 0 <= a2 < new_pt.frames@.len() && 0 <= b2
                        < ENTRIES_PER_TABLE && new_pt.levels@[a2] < 3 && is_table_entry(
                        new_pt.entry(a1, b1),
                    ) && is_table_entry(new_pt.entry(a2, b2)) && #[trigger] new_pt.target(a1, b1)
                        == #[trigger] new_pt.target(a2, b2) implies a1 == a2 && b1 == b2 by {
                    assert(a1 != i3 as int && a2 != i3 as int);
                    assert(new_pt.entry(a1, b1) == pt3.entry(a1, b1));
                    assert(new_pt.entry(a2, b2) == pt3.entry(a2, b2));
                    assert(pt3.target(a1, b1) == pt3.target(a2, b2));
                }
            }
            assert(new_pt.entries_wf()) by {
                assert forall|f: int, s: int|
                    0 <= f < new_pt.frames@.len() && 0 <= s < ENTRIES_PER_TABLE
                        && #[trigger] new_pt.entry(f, s) != 0 implies {
                    &&& new_pt.entry(f, s) & PTE_VALID != 0
                    &&& (new_pt.levels@[f] == 3 ==> new_pt.entry(f, s) & PTE_NON_BLOCK != 0)
                    &&& (new_pt.levels@[f] == 0 ==> new_pt.entry(f, s) & PTE_NON_BLOCK != 0)
                } by {
                    if !(f == i3 as int && s == j3 as int) {
                        assert(new_pt.entry(f, s) == pt3.entry(f, s));
                    }
                }
            }
            assert(Self::leaf_rel(pt3, new_pt, i3 as int, j3 as int));
            assert(new_pt.entry(i3 as int, j3 as int) == spec_page_leaf(hpa, flags));
            assert forall|g: u64| g < ADDR_LIMIT implies #[trigger] self.spec_translate(g) == (if g
                >> 12 == gpa >> 12 {
                Some::<(int, u64)>(((hpa + (g & 0xfff)) as int, spec_page_leaf(hpa, flags)))
            } else {
                old(self).spec_translate(g)
            }) by {
                lemma_same_page_iff_indices(g, gpa);
                assert(pt1.spec_translate(g) == old(self).spec_translate(g));
                assert(pt2.spec_translate(g) == pt1.spec_translate(g));
                assert(pt3.spec_translate(g) == pt2.spec_translate(g));
                Self::lemma_leaf_preserves(
                    pt3,
                    new_pt,
                    0,
                    i1 as int,
                    i2 as int,
                    i3 as int,
                    j0 as int,
                    j1 as int,
                    j2 as int,
                    j3 as int,
                    0,
                    0,
                    g,
                );
                if g >> 12 == gpa >> 12 {
                    assert(tail_match(g, 0, j0 as int, j1 as int, j2 as int, j3 as int));
                    let lw = new_pt.entry(i3 as int, j3 as int);
                    assert((lw & PTE_ADDR_MASK) == hpa);
                }
            }
            assert forall|g: u64| g < ADDR_LIMIT && g >> 12 != gpa >> 12 implies #[trigger] self
                .spec_mappable(g) == old(self).spec_mappable(g) by {
                lemma_same_page_iff_indices(g, gpa);
                assert(pt1.spec_mappable(g) == old(self).spec_mappable(g));
                assert(pt2.spec_mappable(g) == pt1.spec_mappable(g));
                assert(pt3.spec_mappable(g) == pt2.spec_mappable(g));
                Self::lemma_leaf_preserves(
                    pt3,
                    new_pt,
                    0,
                    i1 as int,
                    i2 as int,
                    i3 as int,
                    j0 as int,
                    j1 as int,
                    j2 as int,
                    j3 as int,
                    0,
                    0,
                    g,
                );
            }
            assert(!self.spec_mappable(gpa)) by {
                Self::lemma_leaf_preserves(
                    pt3,
                    new_pt,
                    0,
                    i1 as int,
                    i2 as int,
                    i3 as int,
                    j0 as int,
                    j1 as int,
                    j2 as int,
                    j3 as int,
                    0,
                    0,
                    gpa,
                );
            }
        }
    }
}


impl NestedPageTable {
    /// Walk the table for one guest-physical address: the
    /// host-physical image and the leaf descriptor, when a mapping
    /// exists.
    pub fn translate(&self, g: u64) -> (r: Option<(u64, u64)>)
        requires
            self.wf(),
        ensures
            self.spec_translate(g) is None ==> r is None,
            self.spec_translate(g) matches Some(t) ==> r == Some((t.0 as u64, t.1)),
    {
        proof {
            lemma_idx_bounds(g);
        }
        let mut i: usize = 0;
        let mut d: usize = 0;
        loop
            invariant
                self.wf(),
                d <= 3,
                i < self.frames@.len(),
                self.levels@[i as int] == d,
                self.spec_translate(g) == self.spec_walk(i as int, d as int, g),
            decreases 3 - d,
        {
            let shift: u64 = if d == 0 {
                39
            } else if d == 1 {
                30
            } else if d == 2 {
                21
            } else {
                12
            };
            proof {
                let gg = g;
                assert((gg >> 39) & 0x1ff < 512 && (gg >> 30) & 0x1ff < 512 && (gg >> 21) & 0x1ff
                    < 512 && (gg >> 12) & 0x1ff < 512) by (bit_vector);
            }
            let j = ((g >> shift) & 0x1ff) as usize;
            let e = self.frames[i][j];
            if e & PTE_VALID == 0 {
                return None;
            }
            if d == 3 {
                if e & PTE_NON_BLOCK != 0 {
                    proof {
                        let v = e;
                        assert((v & 0xffff_ffff_f000u64) + (g & 0xfffu64) <= 0x1_0000_0000_0000u64)
                            by (bit_vector);
                    }
                    return Some(((e & PTE_ADDR_MASK) + (g & 0xfff), e));
                } else {
                    return None;
                }
            }
            if e & PTE_NON_BLOCK != 0 {
                let pa = crate::stage2::PageTableEntry(e).paddr();
                let k = (pa - self.base) / crate::addr::PAGE_SIZE;
                proof {
                    let t = self.target(i as int, j as int);
                    assert((self.entry(i as int, j as int) & PTE_ADDR_MASK) == self.base + t
                        * crate::addr::PAGE_SIZE);
                    assert(self.base + t * 4096 <= self.base + self.frames@.len() * 4096)
                        by (nonlinear_arith)
                        requires
                            t < self.frames@.len(),
                    ;
                    assert((self.base + t * 4096 - self.base) / 4096 == t) by (nonlinear_arith)
                        requires
                            t >= 0,
                    ;
                }
                i = k;
                d = d + 1;
            } else if d == 2 {
                proof {
                    let v = e;
                    assert((v & 0xffff_ffff_f000u64) + (g & 0x1f_ffffu64) <= 0x1_0000_0fff_f000u64)
                        by (bit_vector);
                }
                return Some(((e & PTE_ADDR_MASK) + (g & 0x1f_ffff), e));
            } else if d == 1 {
                proof {
                    let v = e;
                    assert((v & 0xffff_ffff_f000u64) + (g & 0x3fff_ffffu64)
                        <= 0x1_0000_ffff_f000u64) by (bit_vector);
                }
                return Some(((e & PTE_ADDR_MASK) + (g & 0x3fff_ffff), e));
            } else {
                return None;
            }
        }
    }
}

} // verus!

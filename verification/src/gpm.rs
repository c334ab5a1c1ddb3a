//! The guest-physical memory set: the registered memory regions of
//! one virtual machine together with the stage-2 page table that
//! realizes them.
//!
//! Invariants: regions never overlap in guest-physical space, every
//! address of every region translates through the stage-2 table to
//! the region's host-physical image, and everything outside the
//! regions is still free to be mapped.

use vstd::prelude::*;

use crate::addr::PAGE_SIZE;
use crate::err::RvmError;
use crate::err::RvmResult;
use crate::flags::MemFlags;
use crate::npt::ADDR_LIMIT;
use crate::npt::NestedPageTable;
use crate::npt::spec_page_leaf;

verus! {

/// One registered guest memory region: guest-physical base,
/// host-physical base, byte size and permissions. Immutable after
/// registration.
#[derive(Clone, Copy, PartialEq, Eq, Structural, Debug)]
pub struct GuestMemoryRegion {
    pub gpa: usize,
    pub hpa: usize,
    pub size: usize,
    pub flags: MemFlags,
}

impl GuestMemoryRegion {
    /// Page-aligned, non-empty, readable and within the 48-bit
    /// translation range on both sides.
    pub open spec fn spec_wf(self) -> bool {
        &&& self.gpa % PAGE_SIZE == 0
        &&& self.hpa % PAGE_SIZE == 0
        &&& self.size % PAGE_SIZE == 0
        &&& self.size > 0
        &&& self.gpa + self.size <= ADDR_LIMIT
        &&& self.hpa + self.size <= ADDR_LIMIT
        &&& self.hpa + self.size <= usize::MAX
        &&& self.flags.read
    }

    /// Whether guest-physical address `g` lies inside the region.
    pub open spec fn spec_contains(self, g: int) -> bool {
        self.gpa <= g < self.gpa + self.size
    }

    /// The well-formedness check, performed at registration.
    pub fn check_wf(&self) -> (r: bool)
        ensures
            r == self.spec_wf(),
    {
        self.gpa % PAGE_SIZE == 0 && self.hpa % PAGE_SIZE == 0 && self.size % PAGE_SIZE == 0
            && self.size > 0 && self.gpa as u64 <= ADDR_LIMIT && self.size as u64 <= ADDR_LIMIT
            && self.gpa as u64 + self.size as u64 <= ADDR_LIMIT && self.hpa as u64 <= ADDR_LIMIT
            && self.hpa as u64 + self.size as u64 <= ADDR_LIMIT && self.hpa <= usize::MAX
            - self.size && self.flags.read
    }
}


/// An address inside an aligned page shares the page's number and
/// its low bits are the offset.
pub proof fn lemma_in_page(g: u64, p: u64)
    by (bit_vector)
    requires
        p & 0xfff == 0,
        p < 0x1_0000_0000_0000,
        p <= g,
        g < p + 4096,
    ensures
        g >> 12 == p >> 12,
        (g & 0xfff) == g - p,
{
}

/// An address outside an aligned page has another page number.
pub proof fn lemma_outside_page(g: u64, p: u64)
    by (bit_vector)
    requires
        p & 0xfff == 0,
        p < 0x1_0000_0000_0000,
        g < p || g >= p + 4096,
    ensures
        g >> 12 != p >> 12,
{
}

/// Aligned addresses have no low bits.
pub proof fn lemma_aligned_low_bits(p: u64)
    by (bit_vector)
    requires
        p % 4096 == 0,
    ensures
        p & 0xfff == 0,
{
}

pub struct GuestPhysMemorySet {
    pub regions: Vec<GuestMemoryRegion>,
    pub npt: NestedPageTable,
}

impl GuestPhysMemorySet {
    /// Some region contains `g`.
    pub open spec fn spec_covered(self, g: int) -> bool {
        exists|ri: int|
            0 <= ri < self.regions@.len() && (#[trigger] self.regions@[ri]).spec_contains(g)
    }

    /// Every address of region `ri` translates to the region's
    /// host-physical image, through a page descriptor carrying the
    /// region's flags.
    pub open spec fn spec_region_mapped(self, ri: int) -> bool {
        forall|off: int|
            0 <= off < self.regions@[ri].size ==> #[trigger] self.npt.spec_translate(
                (self.regions@[ri].gpa + off) as u64,
            ) == Some(
                (
                    self.regions@[ri].hpa + off,
                    spec_page_leaf(
                        (self.regions@[ri].hpa + off - (off % 4096)) as u64,
                        self.regions@[ri].flags,
                    ),
                ),
            )
    }

    pub open spec fn inv(self) -> bool {
        &&& self.npt.wf()
        &&& (forall|ri: int|
            0 <= ri < self.regions@.len() ==> (#[trigger] self.regions@[ri]).spec_wf())
        &&& (forall|r1: int, r2: int|
            0 <= r1 < self.regions@.len() && 0 <= r2 < self.regions@.len() && r1 != r2
                ==> (#[trigger] self.regions@[r1]).gpa + self.regions@[r1].size
                <= (#[trigger] self.regions@[r2]).gpa || self.regions@[r2].gpa
                + self.regions@[r2].size <= self.regions@[r1].gpa)
        &&& (forall|ri: int| 0 <= ri < self.regions@.len() ==> self.spec_region_mapped(ri))
        &&& (forall|g: u64|
            g < ADDR_LIMIT && !self.spec_covered(g as int) ==> #[trigger] self.npt.spec_mappable(
                g,
            ))
    }

    /// An empty set whose stage-2 table root lives at `pt_base`.
    pub fn new(pt_base: usize) -> (r: GuestPhysMemorySet)
        requires
            pt_base % PAGE_SIZE == 0,
            pt_base + PAGE_SIZE <= ADDR_LIMIT,
            pt_base + PAGE_SIZE <= usize::MAX,
        ensures
            r.inv(),
            r.regions@.len() == 0,
            r.npt.base == pt_base,
            r.npt.frames@.len() == 1,
    {
        let r = GuestPhysMemorySet { regions: Vec::new(), npt: NestedPageTable::new(pt_base) };
        proof {
            assert forall|g: u64| g < ADDR_LIMIT && !r.spec_covered(g as int) implies #[trigger] r
                .npt.spec_mappable(g) by {}
        }
        r
    }

    /// The host-physical base of the stage-2 table, for the
    /// translation-table base register.
    pub fn nest_page_table_root(&self) -> (r: usize)
        ensures
            r == self.npt.base,
    {
        self.npt.root_paddr()
    }


    /// Whether `r` intersects a registered region in guest-physical
    /// space.
    pub open spec fn spec_overlaps(self, r: GuestMemoryRegion) -> bool {
        exists|ri: int|
            0 <= ri < self.regions@.len() && !(r.gpa + r.size <= (
            #[trigger] self.regions@[ri]).gpa || self.regions@[ri].gpa + self.regions@[ri].size
                <= r.gpa)
    }

    /// Whether the stage-2 table may still grow by the tables that
    /// mapping `r` page by page could demand.
    pub open spec fn spec_capacity_ok(self, r: GuestMemoryRegion) -> bool {
        &&& self.npt.base + (self.npt.frames@.len() + 3 * (r.size as int / 4096)) * 4096 <= ADDR_LIMIT
        &&& self.npt.base + (self.npt.frames@.len() + 3 * (r.size as int / 4096)) * 4096 <= usize::MAX
    }

    /// Register `r` and install its stage-2 mappings page by page.
    ///
    /// Succeeds exactly when `r` is well-formed, does not overlap a
    /// registered region, and the table can still grow by the tables
    /// the mapping may demand; a malformed or overlapping region is
    /// refused as `InvalidParam`, exhaustion as `OutOfMemory`, and a
    /// refused call leaves the set untouched.
    #[verifier::rlimit(100)]
    pub fn map_region(&mut self, r: GuestMemoryRegion) -> (res: RvmResult<()>)
        requires
            old(self).inv(),
        ensures
            final(self).inv(),
            res is Ok <==> (r.spec_wf() && !old(self).spec_overlaps(r) && old(
                self,
            ).spec_capacity_ok(r)),
            res is Ok ==> final(self).regions@ == old(self).regions@.push(r),
            res is Ok ==> (forall|g: u64|
                g < ADDR_LIMIT && !r.spec_contains(g as int) ==> final(self).npt.spec_translate(g)
                    == #[trigger] old(self).npt.spec_translate(g)),
            final(self).npt.base == old(self).npt.base,
            res is Ok ==> final(self).npt.frames@.len() <= old(self).npt.frames@.len() + 3 * (
            r.size as int / 4096),
            res == Err::<(), RvmError>(RvmError::InvalidParam) <==> (!r.spec_wf() || old(
                self,
            ).spec_overlaps(r)),
            res == Err::<(), RvmError>(RvmError::OutOfMemory) <==> (r.spec_wf() && !old(
                self,
            ).spec_overlaps(r) && !old(self).spec_capacity_ok(r)),
            res is Err ==> *final(self) == *old(self),
    {
        if !r.check_wf() {
            return Err(RvmError::InvalidParam);
        }
        let n = self.regions.len();
        let mut ri: usize = 0;
        while ri < n
            invariant
                self.inv(),
                *self == *old(self),
                r.spec_wf(),
                n == self.regions@.len(),
                ri <= n,
                forall|k: int|
                    0 <= k < ri ==> (r.gpa + r.size <= (#[trigger] self.regions@[k]).gpa
                        || self.regions@[k].gpa + self.regions@[k].size <= r.gpa),
            decreases n - ri,
        {
            let other = self.regions[ri];
            if !(r.gpa as u64 + r.size as u64 <= other.gpa as u64 || other.gpa as u64 + other.size
                as u64 <= r.gpa as u64) {
                return Err(RvmError::InvalidParam);
            }
            ri = ri + 1;
        }
        let pages = r.size / PAGE_SIZE;
        proof {
            assert(self.npt.base + self.npt.frames@.len() * PAGE_SIZE <= ADDR_LIMIT);
            assert(self.npt.frames@.len() <= 0x10_0000_0000) by (nonlinear_arith)
                requires
                    self.npt.frames@.len() * 4096 <= 0x1_0000_0000_0000,
            ;
            assert(pages <= 0x10_0000_0000) by (nonlinear_arith)
                requires
                    pages == r.size as int / 4096,
                    0 <= r.size <= 0x1_0000_0000_0000,
            ;
        }
        proof {
            assert((self.npt.frames@.len() as int + 3 * (pages as int)) * 4096
                < 0x8000_0000_0000_0000) by (nonlinear_arith)
                requires
                    0 <= self.npt.frames@.len() <= 0x10_0000_0000,
                    0 <= pages <= 0x10_0000_0000,
            ;
        }
        let need: u64 = (self.npt.frames.len() as u64 + 3 * pages as u64) * (PAGE_SIZE as u64);
        let limit_usize: u64 = if usize::MAX as u64 <= ADDR_LIMIT {
            usize::MAX as u64
        } else {
            ADDR_LIMIT
        };
        if !(self.npt.base as u64 <= limit_usize && need <= limit_usize - self.npt.base as u64) {
            return Err(RvmError::OutOfMemory);
        }
        proof {
            assert((pages * 4096) == r.size) by (nonlinear_arith)
                requires
                    pages == r.size as int / 4096,
                    r.size as int % 4096 == 0,
            ;
            assert forall|g: u64| r.gpa <= g < r.gpa + r.size implies #[trigger] self
                .npt.spec_mappable(g) by {
                if self.spec_covered(g as int) {
                    let k = choose|k: int|
                        0 <= k < self.regions@.len() && (#[trigger] self.regions@[k]).spec_contains(
                            g as int,
                        );
                    assert(false);
                }
            }
        }
        let ghost orig = *self;
        let base_gpa: u64 = r.gpa as u64;
        let base_hpa: u64 = r.hpa as u64;
        let mut done: usize = 0;
        while done < pages
            invariant
                orig.inv(),
                r.spec_wf(),
                pages * 4096 == r.size,
                self.regions@ == orig.regions@,
                self.npt.wf(),
                self.npt.base == orig.npt.base,
                self.npt.frames@.len() <= orig.npt.frames@.len() + 3 * done,
                orig.npt.base + (orig.npt.frames@.len() + 3 * pages) * 4096
                    <= ADDR_LIMIT,
                orig.npt.base + (orig.npt.frames@.len() + 3 * pages) * 4096
                    <= usize::MAX,
                base_gpa == r.gpa,
                base_hpa == r.hpa,
                done <= pages,
                forall|g: u64|
                    r.gpa <= g < r.gpa + r.size ==> #[trigger] orig.npt.spec_mappable(g),
                forall|off: int|
                    0 <= off < done * 4096 ==> #[trigger] self.npt.spec_translate(
                        (r.gpa + off) as u64,
                    ) == Some(
                        (
                            r.hpa + off,
                            spec_page_leaf(
                                (r.hpa + off - (off % 4096)) as u64,
                                r.flags,
                            ),
                        ),
                    ),
                forall|g: u64|
                    g < ADDR_LIMIT && !(r.gpa <= g < r.gpa + done * 4096)
                        ==> #[trigger] self.npt.spec_translate(g) == orig.npt.spec_translate(g),
                forall|g: u64|
                    g < ADDR_LIMIT && !(r.gpa <= g < r.gpa + done * 4096)
                        ==> #[trigger] self.npt.spec_mappable(g) == orig.npt.spec_mappable(g),
            decreases pages - done,
        {
            let ghost prev = self.npt;
            proof {
                assert(done * 4096 + 4096 == (done + 1) * 4096) by (nonlinear_arith);
                assert((done + 1) * 4096 <= pages * 4096) by (nonlinear_arith)
                    requires
                        done < pages,
                ;
                assert(0 <= done * 4096) by (nonlinear_arith)
                    requires
                        done >= 0,
                ;
                assert((r.gpa + done * 4096) % 4096 == 0) by (nonlinear_arith)
                    requires
                        r.gpa % 4096 == 0,
                        done >= 0,
                ;
                assert((r.hpa + done * 4096) % 4096 == 0) by (nonlinear_arith)
                    requires
                        r.hpa % 4096 == 0,
                        done >= 0,
                ;
            }
            let ga: u64 = base_gpa + (done as u64) * (PAGE_SIZE as u64);
            let ha: u64 = base_hpa + (done as u64) * (PAGE_SIZE as u64);
            proof {
                lemma_aligned_low_bits(ga);
                lemma_aligned_low_bits(ha);
                assert(ga == r.gpa + done * 4096);
                assert(done * 4096 + 4096 <= r.size);
                assert(ga < ADDR_LIMIT);
                assert(orig.npt.spec_mappable(ga));
                assert(!(r.gpa <= ga < r.gpa + done * 4096));
                assert(self.npt.spec_mappable(ga) == orig.npt.spec_mappable(ga));
                assert(self.npt.spec_mappable(ga));
                assert(3 * done + 3 == 3 * (done + 1)) by (nonlinear_arith);
                assert(3 * (done + 1) <= 3 * pages) by (nonlinear_arith)
                    requires
                        done < pages,
                ;
                assert((orig.npt.frames@.len() + 3 * pages) * 4096 >= (self.npt.frames@.len() + 3)
                    * 4096) by (nonlinear_arith)
                    requires
                        orig.npt.frames@.len() + 3 * pages >= self.npt.frames@.len() + 3,
                ;
            }
            self.npt.map_page(ga, ha, r.flags);
            done = done + 1;
            proof {
                assert forall|off: int| 0 <= off < done * 4096 implies #[trigger] self
                    .npt.spec_translate((r.gpa + off) as u64) == Some(
                    (
                        r.hpa + off,
                        spec_page_leaf((r.hpa + off - (off % 4096)) as u64, r.flags),
                    ),
                ) by {
                    let gu = (r.gpa + off) as u64;
                    if off >= (done - 1) * 4096 {
                        assert(off < done * 4096);
                        assert((done - 1) * 4096 + 4096 == done * 4096) by (nonlinear_arith);
                        lemma_in_page(gu, ga);
                        assert(gu >> 12 == ga >> 12);
                        assert((off / 4096) * 4096 == (done - 1) * 4096) by (nonlinear_arith)
                            requires
                                (done - 1) * 4096 <= off < (done - 1) * 4096 + 4096,
                        ;
                        assert(off % 4096 == off - (off / 4096) * 4096) by (nonlinear_arith);
                    } else {
                        assert(off < (done - 1) * 4096);
                        lemma_outside_page(gu, ga);
                        assert(prev.spec_translate(gu) == Some(
                            (
                                r.hpa + off,
                                spec_page_leaf(
                                    (r.hpa + off - (off % 4096)) as u64,
                                    r.flags,
                                ),
                            ),
                        ));
                    }
                }
                assert forall|g: u64|
                    g < ADDR_LIMIT && !(r.gpa <= g < r.gpa + done * 4096)
                        implies #[trigger] self.npt.spec_translate(g) == orig.npt.spec_translate(
                    g,
                ) by {
                    assert((done - 1) * 4096 <= done * 4096) by (nonlinear_arith);
                    lemma_outside_page(g, ga);
                    assert(self.npt.spec_translate(g) == prev.spec_translate(g));
                    assert(!(r.gpa <= g < r.gpa + (done - 1) * 4096));
                    assert(prev.spec_translate(g) == orig.npt.spec_translate(g));
                }
                assert forall|g: u64|
                    g < ADDR_LIMIT && !(r.gpa <= g < r.gpa + done * 4096)
                        implies #[trigger] self.npt.spec_mappable(g) == orig.npt.spec_mappable(
                    g,
                ) by {
                    assert((done - 1) * 4096 <= done * 4096) by (nonlinear_arith);
                    lemma_outside_page(g, ga);
                    assert(self.npt.spec_mappable(g) == prev.spec_mappable(g));
                    assert(!(r.gpa <= g < r.gpa + (done - 1) * 4096));
                    assert(prev.spec_mappable(g) == orig.npt.spec_mappable(g));
                }
            }
        }
        self.regions.push(r);
        proof {
            let newself = *self;
            assert forall|rj: int| 0 <= rj < newself.regions@.len() implies newself
                .spec_region_mapped(rj) by {
                if rj < orig.regions@.len() {
                    assert(orig.spec_region_mapped(rj));
                    assert forall|off: int|
                        0 <= off < newself.regions@[rj].size implies #[trigger] newself
                        .npt.spec_translate((newself.regions@[rj].gpa + off) as u64) == Some(
                        (
                            newself.regions@[rj].hpa + off,
                            spec_page_leaf(
                                (newself.regions@[rj].hpa + off - (off % 4096))
                                    as u64,
                                newself.regions@[rj].flags,
                            ),
                        ),
                    ) by {
                        let reg = orig.regions@[rj];
                        let gu = (reg.gpa + off) as u64;
                        assert(reg.spec_wf());
                        assert(gu < ADDR_LIMIT);
                        assert(reg.gpa + reg.size <= r.gpa || r.gpa + r.size <= reg.gpa);
                        assert(done == pages && done * 4096 == r.size);
                        assert(!(r.gpa <= gu < r.gpa + done * 4096));
                        assert(self.npt.spec_translate(gu) == orig.npt.spec_translate(gu));
                        assert(orig.npt.spec_translate(gu) == Some(
                            (
                                reg.hpa + off,
                                spec_page_leaf(
                                    (reg.hpa + off - (off % 4096)) as u64,
                                    reg.flags,
                                ),
                            ),
                        ));
                    }
                } else {
                    assert(newself.regions@[rj] == r);
                    assert(done == pages);
                    assert(done * 4096 == r.size);
                }
            }
            assert forall|g: u64|
                g < ADDR_LIMIT && !newself.spec_covered(g as int) implies #[trigger] newself
                .npt.spec_mappable(g) by {
                assert(!r.spec_contains(g as int)) by {
                    if r.spec_contains(g as int) {
                        let last = newself.regions@.len() - 1;
                        assert(newself.regions@[last] == r);
                        assert((newself.regions@[last]).spec_contains(g as int));
                    }
                }
                assert(done == pages && done * 4096 == r.size);
                assert(!orig.spec_covered(g as int)) by {
                    if orig.spec_covered(g as int) {
                        let k = choose|k: int|
                            0 <= k < orig.regions@.len() && (
                            #[trigger] orig.regions@[k]).spec_contains(g as int);
                        assert(newself.regions@[k].spec_contains(g as int));
                    }
                }
                assert(self.npt.spec_mappable(g) == orig.npt.spec_mappable(g));
            }
            assert(newself.inv());
        }
        Ok(())
    }

    /// The translation the region table prescribes for `g`: the
    /// matching region's host-physical image of `g`, if a region
    /// contains it.
    pub open spec fn spec_gpa_to_hpa(self, g: int) -> Option<int> {
        if exists|ri: int|
            0 <= ri < self.regions@.len() && (#[trigger] self.regions@[ri]).spec_contains(g) {
            let ri = choose|ri: int|
                0 <= ri < self.regions@.len() && (#[trigger] self.regions@[ri]).spec_contains(g);
            Some(self.regions@[ri].hpa + (g - self.regions@[ri].gpa))
        } else {
            None
        }
    }

    /// Translate one guest-physical address by the region table.
    pub fn gpa_to_hpa(&self, g: usize) -> (r: Option<usize>)
        requires
            self.inv(),
        ensures
            r matches Some(h) ==> self.spec_gpa_to_hpa(g as int) == Some(h as int),
            r is None ==> !self.spec_covered(g as int),
            self.spec_covered(g as int) ==> r is Some,
    {
        let n = self.regions.len();
        let mut ri: usize = 0;
        while ri < n
            invariant
                self.inv(),
                n == self.regions@.len(),
                ri <= n,
                forall|k: int| 0 <= k < ri ==> !(#[trigger] self.regions@[k]).spec_contains(g as int),
            decreases n - ri,
        {
            let region = self.regions[ri];
            if region.gpa <= g && g - region.gpa < region.size {
                proof {
                    assert(self.regions@[ri as int].spec_contains(g as int));
                    let other = choose|k: int|
                        0 <= k < self.regions@.len() && (#[trigger] self.regions@[k]).spec_contains(
                            g as int,
                        );
                    assert(self.regions@[other].spec_contains(g as int));
                    if other != ri as int {
                        assert(false);
                    }
                }
                return Some(region.hpa + (g - region.gpa));
            }
            ri = ri + 1;
        }
        None
    }
}


/// The page descriptor `spec_page_leaf` grants exactly the region's
/// permissions (stage-2 descriptors cannot grant unprivileged-only
/// access).
pub proof fn lemma_page_leaf_flags(hpa: u64, f: MemFlags)
    requires
        hpa & 0xfff == 0,
        hpa < 0x1_0000_0000_0000,
    ensures
        crate::stage2::spec_flags_of_attr(spec_page_leaf(hpa, f)) == (MemFlags {
            user: false,
            ..f
        }),
{
    let av = crate::stage2::spec_attr_of_flags(f);
    crate::stage2::lemma_attr_of_flags_bits(f);
    crate::stage2::lemma_attr_clear_of_addr(f);
    let lv = spec_page_leaf(hpa, f);
    assert(lv == av | 0x400 | 2 | hpa);
    assert(lv & 1 == av & 1 && lv & 0x40 == av & 0x40 && lv & 0x80 == av & 0x80 && lv
        & 0x40000000000000 == av & 0x40000000000000 && (lv >> 2) & 0xf == (av >> 2) & 0xf)
        by (bit_vector)
        requires
            lv == av | 0x400 | 2 | hpa,
            av & 0xffff_ffff_f000u64 == 0,
            hpa & 0xfff == 0,
            hpa < 0x1_0000_0000_0000u64,
    ;
}

/// Law (stage-2 translation of registered regions): for every
/// registered region of a guest-physical memory set and every
/// address inside it, the stage-2 table translates that address to
/// the region's host-physical image, through a page descriptor that
/// grants exactly the region's declared permissions.
pub proof fn lemma_stage2_translates_regions(gpm: GuestPhysMemorySet, ri: int, off: int)
    requires
        gpm.inv(),
        0 <= ri < gpm.regions@.len(),
        0 <= off < gpm.regions@[ri].size,
    ensures
        ({
            let r = gpm.regions@[ri];
            let page_hpa = (r.hpa + off - off % (PAGE_SIZE as int)) as u64;
            &&& gpm.npt.spec_translate((r.gpa + off) as u64) == Some(
                (r.hpa + off, spec_page_leaf(page_hpa, r.flags)),
            )
            &&& crate::stage2::spec_flags_of_attr(spec_page_leaf(page_hpa, r.flags)) == (MemFlags {
                user: false,
                ..r.flags
            })
        }),
{
    let r = gpm.regions@[ri];
    assert(gpm.spec_region_mapped(ri));
    assert(gpm.npt.spec_translate((r.gpa + off) as u64) == Some(
        (r.hpa + off, spec_page_leaf((r.hpa + off - (off % 4096)) as u64, r.flags)),
    ));
    assert(r.spec_wf());
    let ph = r.hpa + off - off % 4096;
    assert(0 <= off % 4096 <= off && ph % 4096 == 0) by (nonlinear_arith)
        requires
            r.hpa % 4096 == 0,
            0 <= off,
            ph == r.hpa + off - off % 4096,
    ;
    assert(ph < 0x1_0000_0000_0000);
    assert((ph as u64) % 4096 == 0);
    lemma_aligned_low_bits(ph as u64);
    lemma_page_leaf_flags(ph as u64, r.flags);
}



/// Law (the region table and the walk agree): wherever the region
/// table resolves a guest-physical address, the stage-2 walk
/// resolves it to the same host-physical address.
pub proof fn lemma_gpa_to_hpa_agrees(gpm: GuestPhysMemorySet, g: int)
    requires
        gpm.inv(),
        gpm.spec_gpa_to_hpa(g) is Some,
    ensures
        gpm.npt.spec_translate(g as u64) matches Some(t) && t.0 == gpm.spec_gpa_to_hpa(g)->0,
{
    let ri = choose|ri: int|
        0 <= ri < gpm.regions@.len() && (#[trigger] gpm.regions@[ri]).spec_contains(g);
    let r = gpm.regions@[ri];
    let off = g - r.gpa;
    lemma_stage2_translates_regions(gpm, ri, off);
    assert(r.spec_wf());
    assert((r.gpa + off) as u64 == g as u64);
}

/// Build one VM's guest-physical memory set: guest RAM, the console
/// window, the distributor window, the CPU-interface window passed
/// through to the virtual interface, and the device-tree blob and
/// initial ramdisk images.
///
/// `pt_base` is where the stage-2 table frames grow from; `ram_hpa`
/// is the host-physical base of the VM's RAM; the blob and ramdisk
/// sizes are page-aligned by the caller. Under the stated bounds
/// every registration succeeds and the returned set satisfies its
/// invariant, with exactly these six regions.
pub fn setup_gpm(
    pt_base: usize,
    ram_hpa: usize,
    dtb_hpa: usize,
    dtb_size: usize,
    initramfs_hpa: usize,
    initramfs_size: usize,
) -> (r: RvmResult<GuestPhysMemorySet>)
    requires
        pt_base % PAGE_SIZE == 0,
        pt_base + 0x4000_0000 <= ADDR_LIMIT,
        pt_base + 0x4000_0000 <= usize::MAX,
        ram_hpa % PAGE_SIZE == 0,
        ram_hpa + crate::config::GUEST_PHYS_MEMORY_SIZE <= ADDR_LIMIT,
        ram_hpa + crate::config::GUEST_PHYS_MEMORY_SIZE <= usize::MAX,
        dtb_hpa % PAGE_SIZE == 0,
        dtb_size % PAGE_SIZE == 0,
        0 < dtb_size <= 0x20_0000,
        dtb_hpa + dtb_size <= ADDR_LIMIT,
        dtb_hpa + dtb_size <= usize::MAX,
        initramfs_hpa % PAGE_SIZE == 0,
        initramfs_size % PAGE_SIZE == 0,
        0 < initramfs_size <= crate::config::GUEST_INITRAMFS_END
            - crate::config::GUEST_INITRAMFS_START,
        initramfs_hpa + initramfs_size <= ADDR_LIMIT,
        initramfs_hpa + initramfs_size <= usize::MAX,
    ensures
        r is Ok,
        r matches Ok(g) ==> {
            &&& g.inv()
            &&& g.npt.base == pt_base
            &&& g.regions@.len() == 6
            &&& g.regions@[0] == (GuestMemoryRegion {
                gpa: crate::config::GUEST_PHYS_MEMORY_BASE,
                hpa: ram_hpa,
                size: crate::config::GUEST_PHYS_MEMORY_SIZE,
                flags: MemFlags { read: true, write: true, execute: true, device: false, user: false },
            })
            &&& g.regions@[1].gpa == 0x0900_0000 && g.regions@[1].hpa == 0x0900_0000
                && g.regions@[1].size == 0x1000
            &&& g.regions@[2].gpa == 0x0800_0000 && g.regions@[2].hpa == 0x0800_0000
                && g.regions@[2].size == 0x10000
            &&& g.regions@[3].gpa == 0x0801_0000 && g.regions@[3].hpa == 0x0804_0000
                && g.regions@[3].size == 0x10000
            &&& g.regions@[4].gpa == crate::config::GUEST_DTB_ADDR && g.regions@[4].hpa == dtb_hpa
                && g.regions@[4].size == dtb_size
            &&& g.regions@[5].gpa == crate::config::GUEST_INITRAMFS_START && g.regions@[5].hpa
                == initramfs_hpa && g.regions@[5].size == initramfs_size
        },
{
    let mut gpm = GuestPhysMemorySet::new(pt_base);
    let rwx = MemFlags { read: true, write: true, execute: true, device: false, user: false };
    let rwdev = MemFlags { read: true, write: true, execute: false, device: true, user: false };
    let rw = MemFlags { read: true, write: true, execute: false, device: false, user: false };
    let mut regions: Vec<GuestMemoryRegion> = Vec::new();
    regions.push(
        GuestMemoryRegion {
            gpa: crate::config::GUEST_PHYS_MEMORY_BASE,
            hpa: ram_hpa,
            size: crate::config::GUEST_PHYS_MEMORY_SIZE,
            flags: rwx,
        },
    );
    regions.push(GuestMemoryRegion { gpa: 0x0900_0000, hpa: 0x0900_0000, size: 0x1000, flags: rwdev });
    regions.push(GuestMemoryRegion { gpa: 0x0800_0000, hpa: 0x0800_0000, size: 0x10000, flags: rwdev });
    regions.push(GuestMemoryRegion { gpa: 0x0801_0000, hpa: 0x0804_0000, size: 0x10000, flags: rwdev });
    regions.push(
        GuestMemoryRegion { gpa: crate::config::GUEST_DTB_ADDR, hpa: dtb_hpa, size: dtb_size, flags: rw },
    );
    regions.push(
        GuestMemoryRegion {
            gpa: crate::config::GUEST_INITRAMFS_START,
            hpa: initramfs_hpa,
            size: initramfs_size,
            flags: rw,
        },
    );
    proof {
        assert(gpm.regions@ =~= regions@.subrange(0, 0));
        reveal_with_fuel(sum_pages, 8);
        assert(sum_pages(regions@, 0) == 0);
    }
    let mut k: usize = 0;
    while k < 6
        invariant
            gpm.inv(),
            gpm.npt.base == pt_base,
            k <= 6,
            regions@.len() == 6,
            gpm.regions@ == regions@.subrange(0, k as int),
            gpm.npt.frames@.len() <= 1 + 3 * sum_pages(regions@, k as int),
            sum_pages(regions@, k as int) <= 0xd000,
            regions@[0].size == crate::config::GUEST_PHYS_MEMORY_SIZE,
            regions@[1].size == 0x1000,
            regions@[2].size == 0x10000,
            regions@[3].size == 0x10000,
            regions@[4].size == dtb_size,
            regions@[5].size == initramfs_size,
            dtb_size <= 0x20_0000,
            initramfs_size <= 0x200_0000,
            forall|j: int| 0 <= j < 6 ==> (#[trigger] regions@[j]).spec_wf(),
            forall|j1: int, j2: int|
                0 <= j1 < 6 && 0 <= j2 < 6 && j1 != j2 ==> (#[trigger] regions@[j1]).gpa
                    + regions@[j1].size <= (#[trigger] regions@[j2]).gpa || regions@[j2].gpa
                    + regions@[j2].size <= regions@[j1].gpa,
            pt_base + 0x4000_0000 <= ADDR_LIMIT,
            pt_base + 0x4000_0000 <= usize::MAX,
        decreases 6 - k,
    {
        let region = regions[k];
        proof {
            assert(region == regions@[k as int]);
            assert(!gpm.spec_overlaps(region)) by {
                if gpm.spec_overlaps(region) {
                    let ri = choose|ri: int|
                        0 <= ri < gpm.regions@.len() && !(region.gpa + region.size <= (
                        #[trigger] gpm.regions@[ri]).gpa || gpm.regions@[ri].gpa
                            + gpm.regions@[ri].size <= region.gpa);
                    assert(gpm.regions@[ri] == regions@[ri]);
                }
            }
            assert(region.size as int / 4096 <= 0x8000) by (nonlinear_arith)
                requires
                    region.size <= 0x800_0000,
            ;
            assert(sum_pages(regions@, k as int + 1) == sum_pages(regions@, k as int)
                + region.size as int / 4096);
            assert(gpm.spec_capacity_ok(region)) by {
                assert((gpm.npt.frames@.len() + 3 * (region.size as int / 4096)) * 4096 <= (1 + 3
                    * 0xd000 + 3 * 0x8000) * 4096) by (nonlinear_arith)
                    requires
                        gpm.npt.frames@.len() <= 1 + 3 * sum_pages(regions@, k as int),
                        sum_pages(regions@, k as int) <= 0xd000,
                        region.size as int / 4096 <= 0x8000,
                        region.size >= 0,
                ;
            }
        }
        let res = gpm.map_region(region);
        proof {
            assert(res is Ok);
            assert(gpm.regions@ =~= regions@.subrange(0, k as int + 1));
            assert(sum_pages(regions@, k as int + 1) <= 0xd000) by {
                reveal_with_fuel(sum_pages, 8);
            }
        }
        if res.is_err() {
            proof {
                assert(false);
            }
            return Err(RvmError::InvalidParam);
        }
        k = k + 1;
    }
    proof {
        assert(gpm.regions@ =~= regions@);
    }
    Ok(gpm)
}

/// The once-per-VM decision around `setup_gpm`: the first core of a
/// VM to arrive builds the memory set and stores it in the VM's
/// slot; every later core of the VM finds the slot filled and
/// reuses the same stage-2 root.
pub fn gpm_of_vm(
    slot: &mut Option<GuestPhysMemorySet>,
    pt_base: usize,
    ram_hpa: usize,
    dtb_hpa: usize,
    dtb_size: usize,
    initramfs_hpa: usize,
    initramfs_size: usize,
) -> (r: RvmResult<usize>)
    requires
        ((*old(slot)) matches Some(g) ==> g.inv()),
        (*old(slot)) is None ==> {
            &&& pt_base % PAGE_SIZE == 0
            &&& pt_base + 0x4000_0000 <= ADDR_LIMIT
            &&& pt_base + 0x4000_0000 <= usize::MAX
            &&& ram_hpa % PAGE_SIZE == 0
            &&& ram_hpa + crate::config::GUEST_PHYS_MEMORY_SIZE <= ADDR_LIMIT
            &&& ram_hpa + crate::config::GUEST_PHYS_MEMORY_SIZE <= usize::MAX
            &&& dtb_hpa % PAGE_SIZE == 0
            &&& dtb_size % PAGE_SIZE == 0
            &&& 0 < dtb_size <= 0x20_0000
            &&& dtb_hpa + dtb_size <= ADDR_LIMIT
            &&& dtb_hpa + dtb_size <= usize::MAX
            &&& initramfs_hpa % PAGE_SIZE == 0
            &&& initramfs_size % PAGE_SIZE == 0
            &&& 0 < initramfs_size <= crate::config::GUEST_INITRAMFS_END
                - crate::config::GUEST_INITRAMFS_START
            &&& initramfs_hpa + initramfs_size <= ADDR_LIMIT
            &&& initramfs_hpa + initramfs_size <= usize::MAX
        },
    ensures
        r is Ok,
        ((*final(slot)) matches Some(g) && g.inv()),
        (*old(slot)) matches Some(g0) ==> *final(slot) == *old(slot) && r == RvmResult::<usize>::Ok(
            g0.npt.base,
        ),
        (*old(slot)) is None ==> ((*final(slot)) matches Some(g) && g.npt.base == pt_base
            && g.regions@.len() == 6) && r == RvmResult::<usize>::Ok(pt_base),
{
    match slot {
        Some(g) => Ok(g.nest_page_table_root()),
        None => {
            match setup_gpm(pt_base, ram_hpa, dtb_hpa, dtb_size, initramfs_hpa, initramfs_size) {
                Ok(g) => {
                    let root = g.nest_page_table_root();
                    *slot = Some(g);
                    Ok(root)
                },
                Err(e) => Err(e),
            }
        },
    }
}

/// Pages of the first `k` regions of a layout.
pub open spec fn sum_pages(rs: Seq<GuestMemoryRegion>, k: int) -> int
    decreases k,
{
    if k <= 0 {
        0
    } else {
        sum_pages(rs, k - 1) + rs[k - 1].size as int / 4096
    }
}

} // verus!

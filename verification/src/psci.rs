//! Platform power service: deciding which cores to start and which
//! per-CPU guest-entry slots to seed. The secure-monitor call that
//! actually powers a core on is issued by the embedder.

use vstd::prelude::*;

verus! {

/// PSCI function id: power a core on.
pub const PSCI_CPU_ON: usize = 0x8400_0003;

/// PSCI function id: power the calling core off.
pub const PSCI_CPU_OFF: usize = 0x8400_0008;

/// Whether core `i` is the first core of its VM among the cores the
/// boot loop visits (every core but the primary, in order), for a
/// VM other than the primary's.
pub open spec fn spec_seeds_entry(ctv: Seq<usize>, primary: int, i: int) -> bool {
    &&& 0 <= i < ctv.len()
    &&& i != primary
    &&& ctv[i] != ctv[primary]
    &&& forall|j: int| 0 <= j < i && j != primary ==> ctv[j] != ctv[i]
}

/// Plan the secondary boot: every core but the primary is powered
/// on (the returned list, ascending), and the first core of each VM
/// other than the primary's gets the fixed guest entry point in its
/// per-CPU slot; the remaining cores of a VM wait for their guest
/// to start them by hypercall.
pub fn start_secondary_cpus(
    primary_cpu_id: usize,
    cpu_to_vm: &Vec<usize>,
    entries: &mut Vec<usize>,
    guest_entry: usize,
) -> (to_start: Vec<usize>)
    requires
        primary_cpu_id < cpu_to_vm@.len(),
        old(entries)@.len() == cpu_to_vm@.len(),
    ensures
        final(entries)@.len() == old(entries)@.len(),
        forall|i: int|
            0 <= i < final(entries)@.len() ==> #[trigger] final(entries)@[i] == (
            if spec_seeds_entry(cpu_to_vm@, primary_cpu_id as int, i) {
                guest_entry
            } else {
                old(entries)@[i]
            }),
        to_start@.len() == cpu_to_vm@.len() - 1,
        forall|k: int|
            0 <= k < to_start@.len() ==> #[trigger] to_start@[k] == (if k < primary_cpu_id {
                k
            } else {
                k + 1
            }),
{
    let n = cpu_to_vm.len();
    let mut to_start: Vec<usize> = Vec::new();
    let mut i: usize = 0;
    while i < n
        invariant
            n == cpu_to_vm@.len(),
            primary_cpu_id < n,
            entries@.len() == old(entries)@.len(),
            old(entries)@.len() == n,
            i <= n,
            forall|k: int|
                0 <= k < entries@.len() ==> #[trigger] entries@[k] == (if k < i
                    && spec_seeds_entry(cpu_to_vm@, primary_cpu_id as int, k) {
                    guest_entry
                } else {
                    old(entries)@[k]
                }),
            to_start@.len() == (if i <= primary_cpu_id {
                i as int
            } else {
                i - 1
            }),
            forall|k: int|
                0 <= k < to_start@.len() ==> #[trigger] to_start@[k] == (if k < primary_cpu_id {
                    k
                } else {
                    k + 1
                }),
        decreases n - i,
    {
        if i != primary_cpu_id {
            to_start.push(i);
            let vm = cpu_to_vm[i];
            let mut fresh = vm != cpu_to_vm[primary_cpu_id];
            let mut j: usize = 0;
            while j < i
                invariant
                    n == cpu_to_vm@.len(),
                    i < n,
                    j <= i,
                    primary_cpu_id < n,
                    vm == cpu_to_vm@[i as int],
                    fresh == (cpu_to_vm@[i as int] != cpu_to_vm@[primary_cpu_id as int] && forall|
                        k: int,
                    | 0 <= k < j && k != primary_cpu_id ==> cpu_to_vm@[k] != cpu_to_vm@[i as int]),
                decreases i - j,
            {
                if j != primary_cpu_id && cpu_to_vm[j] == vm {
                    fresh = false;
                }
                j = j + 1;
            }
            if fresh {
                entries[i] = guest_entry;
            }
        }
        i = i + 1;
    }
    to_start
}

} // verus!

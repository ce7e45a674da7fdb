//! Boot-time arithmetic: which core is running, where its boot stack starts,
//! and the zero-fill of the uninitialized-data region.
use crate::cpu::{core_id, spec_core_id};
use vstd::prelude::*;

verus! {

/// Number of cores that share the boot-stack region.
pub const ASSUMED_CORES: u64 = 4;

/// Alignment that the architecture demands of a stack pointer.
pub const STACK_ALIGNMENT: u64 = 16;

/// Clears the low bits of an address to align it down to `STACK_ALIGNMENT`.
pub const STACK_ALIGNMENT_MASK: u64 = !0xf;

/// The size of each core's slice of the boot-stack region `[start, end)`.
pub open spec fn spec_stack_size(start: u64, end: u64) -> int {
    (end - start) / (ASSUMED_CORES as int)
}

/// The lowest address of core `id`'s slice of the boot-stack region.
pub open spec fn spec_slice_start(start: u64, end: u64, id: nat) -> int {
    start + id * spec_stack_size(start, end)
}

/// One past the highest address of core `id`'s slice.
pub open spec fn spec_slice_end(start: u64, end: u64, id: nat) -> int {
    start + (id + 1) * spec_stack_size(start, end)
}

/// The initial stack pointer of core `id`: the top of its slice, aligned down.
pub open spec fn spec_boot_stack_pointer(start: u64, end: u64, id: nat) -> int {
    let top = spec_slice_end(start, end, id);
    top - top % (STACK_ALIGNMENT as int)
}

/// Every core's initial stack pointer is aligned to `STACK_ALIGNMENT`, lies
/// above the lowest address of that core's own slice and at most at its end,
/// so the stack grows down into the core's slice and no other. The slice must
/// hold at least one aligned block for this to hold.
pub proof fn lemma_boot_stack_in_slice(start: u64, end: u64, id: nat)
    requires
        start <= end,
        id < ASSUMED_CORES,
        spec_stack_size(start, end) >= STACK_ALIGNMENT,
    ensures
        spec_slice_start(start, end, id) < spec_boot_stack_pointer(start, end, id)
            <= spec_slice_end(start, end, id),
        spec_boot_stack_pointer(start, end, id) % (STACK_ALIGNMENT as int) == 0,
{
    let size = spec_stack_size(start, end);
    let top = spec_slice_end(start, end, id);
    assert((id + 1) * size == id * size + size) by (nonlinear_arith);
    assert(top - top % 16 > top - 16);
}

/// The size of each core's slice of the boot-stack region `[start, end)`.
pub fn boot_stack_size(start: u64, end: u64) -> (r: u64)
    requires
        start <= end,
    ensures
        r == spec_stack_size(start, end),
{
    (end - start) / ASSUMED_CORES
}

/// The initial stack pointer of the core whose affinity register holds
/// `mpidr`, in the boot-stack region `[start, end)`.
pub fn boot_stack_pointer(start: u64, end: u64, mpidr: u64) -> (r: u64)
    requires
        start <= end,
    ensures
        r == spec_boot_stack_pointer(start, end, spec_core_id(mpidr)),
{
    let size = boot_stack_size(start, end);
    let id = core_id(mpidr);
    assert(id * size + size <= 4 * size) by (nonlinear_arith)
        requires
            id < 4,
    ;
    assert((id + 1) * size == id * size + size) by (nonlinear_arith);
    let top = start + (id * size + size);
    let r = top & STACK_ALIGNMENT_MASK;
    assert(top & !0xfu64 == top - top % 16) by (bit_vector);
    r
}

/// Zeroes every byte of `mem` in `[start, end)` and leaves the others as
/// they were; returns the number of bytes written.
pub fn clear_bss(mem: &mut [u8], start: usize, end: usize) -> (writes: usize)
    requires
        start <= end <= old(mem)@.len(),
    ensures
        final(mem)@.len() == old(mem)@.len(),
        writes == end - start,
        forall|i: int| start <= i < end ==> #[trigger] final(mem)@[i] == 0,
        forall|i: int|
            0 <= i < old(mem)@.len() && !(start <= i < end) ==> #[trigger] final(mem)@[i]
                == old(mem)@[i],
{
    let mut writes: usize = 0;
    if start == end {
        return writes;
    }
    let mut p: usize = start;
    while p < end
        invariant
            start <= p <= end <= mem@.len(),
            mem@.len() == old(mem)@.len(),
            writes == p - start,
            forall|i: int| start <= i < p ==> #[trigger] mem@[i] == 0,
            forall|i: int|
                0 <= i < mem@.len() && !(start <= i < p) ==> #[trigger] mem@[i] == old(mem)@[i],
        decreases end - p,
    {
        mem[p] = 0;
        writes = writes + 1;
        p = p + 1;
    }
    writes
}

} // verus!

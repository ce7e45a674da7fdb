//! What a core knows of itself: its number and its exception level.
use vstd::prelude::*;

verus! {

/// Bits of the affinity register that hold the core number.
pub const CORE_ID_MASK: u64 = 0b11;

/// A privilege level of the processor at which exceptions are taken.
#[derive(Clone, Copy, Debug, PartialEq, Eq, Structural)]
pub enum ExceptionLevel {
    El1,
    El2,
    El3,
}

/// The core number held in an affinity register value.
pub open spec fn spec_core_id(mpidr: u64) -> nat {
    (mpidr % 4) as nat
}

/// The core number held in the affinity register value `mpidr`.
pub fn core_id(mpidr: u64) -> (r: u64)
    ensures
        r == spec_core_id(mpidr),
        r < 4,
{
    let r = mpidr & CORE_ID_MASK;
    assert(mpidr & 3 == mpidr % 4) by (bit_vector);
    r
}

/// Whether the core whose affinity register holds `mpidr` is the one that
/// brings the system up; every other core is parked.
pub fn is_main_core(mpidr: u64) -> (r: bool)
    ensures
        r == (spec_core_id(mpidr) == 0),
{
    core_id(mpidr) == 0
}

} // verus!

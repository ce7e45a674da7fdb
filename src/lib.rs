//! Bootstrap and exception-handling core of a minimal bare-metal kernel for
//! 64-bit ARM: the exception vector table, the saved CPU context, the boot
//! stack layout and the spinlock that guards shared kernel state.
pub mod boot;
pub mod context;
pub mod cpu;
pub mod sync;
pub mod trampoline;
pub mod vector_table;

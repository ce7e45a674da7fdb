//! The saved CPU context and the sequences that save it on trap entry and
//! restore it before the return from the exception.
//!
//! Memory is modelled as 64-bit words and the stack pointer as a word index:
//! a store-pair with pre-decrement (`stp a, b, [sp, #-16]!`) lowers `sp` by
//! two words and writes `a` below `b`, and a load-pair with post-increment
//! (`ldp a, b, [sp], #16`) is its mirror image.
use vstd::prelude::*;

verus! {

/// Number of general-purpose registers.
pub const GP_REGS: usize = 31;

/// Number of 64-bit words in a saved context: flags, program counter, user
/// stack pointer and the general-purpose registers.
pub const CONTEXT_WORDS: usize = 34;

/// The register file of one core, as far as the save and restore sequences
/// touch it.
pub struct CpuState {
    /// General-purpose registers x0 to x30 (x30 is the link register).
    pub x: [u64; 31],
    /// The active stack pointer, as a word index into stack memory.
    pub sp: usize,
    /// The user stack pointer SP_EL0.
    pub sp_el0: u64,
    /// The saved program status register latched on trap entry.
    pub spsr: u64,
    /// The exception link register latched on trap entry.
    pub elr: u64,
    /// The condition flags register NZCV.
    pub nzcv: u64,
    /// The CurrentEL register.
    pub current_el: u64,
    /// The SPSel register.
    pub spsel: u64,
}

/// A saved context, in the order in which it lies in memory from the lowest
/// address up: flags, program counter, user stack pointer, x0 to x30.
pub struct Context {
    flags: u64,
    pc: u64,
    usp: u64,
    x: [u64; 31],
}

/// The memory image of a saved context, lowest address first.
pub open spec fn frame(flags: u64, pc: u64, usp: u64, x: Seq<u64>) -> Seq<u64> {
    seq![flags, pc, usp] + x
}

/// The flags word that a voluntary switch synthesizes from the condition
/// flags, the current exception level and the stack selector.
pub open spec fn spec_switch_flags(nzcv: u64, current_el: u64, spsel: u64) -> u64 {
    nzcv | current_el | spsel
}

impl View for Context {
    type V = Seq<u64>;

    closed spec fn view(&self) -> Seq<u64> {
        frame(self.flags, self.pc, self.usp, self.x@)
    }
}

impl Context {
    /// Reads the context that lies in memory from word `sp` up, as a handler
    /// does with the stack pointer that the trap entry leaves behind.
    pub fn from_stack(mem: &[u64], sp: usize) -> (r: Context)
        requires
            sp + CONTEXT_WORDS <= mem@.len() <= usize::MAX,
        ensures
            r@ == mem@.subrange(sp as int, sp + CONTEXT_WORDS),
    {
        let mut x = [0u64; 31];
        let mut i: usize = 0;
        while i < GP_REGS
            invariant
                i <= GP_REGS,
                sp + CONTEXT_WORDS <= mem@.len() <= usize::MAX,
                forall|j: int| 0 <= j < i ==> #[trigger] x@[j] == mem@[sp + 3 + j],
            decreases GP_REGS - i,
        {
            x[i] = mem[sp + 3 + i];
            i = i + 1;
        }
        let r = Context { flags: mem[sp], pc: mem[sp + 1], usp: mem[sp + 2], x };
        assert(r@ =~= mem@.subrange(sp as int, sp + CONTEXT_WORDS));
        r
    }

    /// The saved flags word.
    pub fn flags(&self) -> (r: u64)
        ensures
            r == self@[0],
    {
        self.flags
    }

    /// The saved program counter: where execution resumes.
    pub fn pc(&self) -> (r: u64)
        ensures
            r == self@[1],
    {
        self.pc
    }

    /// The saved user stack pointer.
    pub fn usp(&self) -> (r: u64)
        ensures
            r == self@[2],
    {
        self.usp
    }

    /// The saved general-purpose register `xi`.
    pub fn x(&self, i: usize) -> (r: u64)
        requires
            i < GP_REGS,
        ensures
            r == self@[3 + i],
    {
        self.x[i]
    }
}

/// The registers of `a` and `b` agree, but for the stack pointer and the
/// saved status and link registers.
pub open spec fn same_except_sp(a: CpuState, b: CpuState) -> bool {
    &&& a.x@ == b.x@
    &&& a.sp_el0 == b.sp_el0
    &&& a.spsr == b.spsr
    &&& a.elr == b.elr
    &&& a.nzcv == b.nzcv
    &&& a.current_el == b.current_el
    &&& a.spsel == b.spsel
}

/// What a push sequence leaves behind: every register as it was, `sp` lowered
/// by one context, and `saved` written in the words from the new `sp` up;
/// other memory unchanged.
pub open spec fn pushed(
    before: CpuState,
    mem_before: Seq<u64>,
    after: CpuState,
    mem_after: Seq<u64>,
    saved: Seq<u64>,
) -> bool {
    &&& same_except_sp(before, after)
    &&& after.sp + saved.len() == before.sp
    &&& before.sp <= mem_before.len()
    &&& mem_after.len() == mem_before.len()
    &&& mem_after.subrange(after.sp as int, before.sp as int) == saved
    &&& forall|i: int|
        0 <= i < mem_before.len() && !(after.sp <= i < before.sp) ==> #[trigger] mem_after[i]
            == mem_before[i]
}

/// What the exception variant of the push sequence leaves behind.
pub open spec fn pushed_on_trap(
    before: CpuState,
    mem_before: Seq<u64>,
    after: CpuState,
    mem_after: Seq<u64>,
) -> bool {
    pushed(
        before,
        mem_before,
        after,
        mem_after,
        frame(before.spsr, before.elr, before.sp_el0, before.x@),
    )
}

/// What the voluntary-switch variant of the push sequence leaves behind.
pub open spec fn pushed_on_switch(
    before: CpuState,
    mem_before: Seq<u64>,
    after: CpuState,
    mem_after: Seq<u64>,
) -> bool {
    pushed(
        before,
        mem_before,
        after,
        mem_after,
        frame(
            spec_switch_flags(before.nzcv, before.current_el, before.spsel),
            before.x@[30],
            before.sp_el0,
            before.x@,
        ),
    )
}

/// What the pop sequence leaves behind: the saved context at `sp` loaded into
/// the status, link, user stack pointer and general-purpose registers, and
/// `sp` raised past it.
pub open spec fn popped(before: CpuState, mem: Seq<u64>, after: CpuState) -> bool {
    let s = before.sp as int;
    &&& after.sp == before.sp + CONTEXT_WORDS
    &&& after.spsr == mem[s]
    &&& after.elr == mem[s + 1]
    &&& after.sp_el0 == mem[s + 2]
    &&& after.x@ == mem.subrange(s + 3, s + CONTEXT_WORDS)
    &&& after.nzcv == before.nzcv
    &&& after.current_el == before.current_el
    &&& after.spsel == before.spsel
}

/// `stp a, b, [sp, #-16]!`
fn store_pair_pre(cpu: &mut CpuState, mem: &mut [u64], a: usize, b: usize)
    requires
        a < GP_REGS,
        b < GP_REGS,
        2 <= old(cpu).sp <= old(mem)@.len(),
    ensures
        *final(cpu) == (CpuState { sp: (old(cpu).sp - 2) as usize, ..*old(cpu) }),
        final(mem)@ == old(mem)@.update(old(cpu).sp - 2, old(cpu).x@[a as int]).update(
            old(cpu).sp - 1,
            old(cpu).x@[b as int],
        ),
{
    cpu.sp = cpu.sp - 2;
    mem[cpu.sp] = cpu.x[a];
    mem[cpu.sp + 1] = cpu.x[b];
}

/// `ldp a, b, [sp], #16`
fn load_pair_post(cpu: &mut CpuState, mem: &[u64], a: usize, b: usize)
    requires
        a < GP_REGS,
        b < GP_REGS,
        a != b,
        old(cpu).sp + 2 <= mem@.len() <= usize::MAX,
    ensures
        *final(cpu) == (CpuState {
            sp: (old(cpu).sp + 2) as usize,
            x: final(cpu).x,
            ..*old(cpu)
        }),
        final(cpu).x@ == old(cpu).x@.update(a as int, mem@[old(cpu).sp as int]).update(
            b as int,
            mem@[old(cpu).sp + 1],
        ),
{
    let s = cpu.sp;
    cpu.x[a] = mem[s];
    cpu.x[b] = mem[s + 1];
    cpu.sp = s + 2;
}

/// Two pushes in a row are one push of the second's words below the first's.
proof fn lemma_pushed_twice(
    a: CpuState,
    ma: Seq<u64>,
    b: CpuState,
    mb: Seq<u64>,
    c: CpuState,
    mc: Seq<u64>,
    first: Seq<u64>,
    second: Seq<u64>,
)
    requires
        pushed(a, ma, b, mb, first),
        pushed(b, mb, c, mc, second),
    ensures
        pushed(a, ma, c, mc, second + first),
{
    let lo = c.sp as int;
    let mid = b.sp as int;
    let hi = a.sp as int;
    assert forall|j: int| 0 <= j < hi - lo implies #[trigger] mc.subrange(lo, hi)[j] == (second
        + first)[j] by {
        if j < mid - lo {
            assert(mc.subrange(lo, mid)[j] == second[j]);
        } else {
            assert(mc[lo + j] == mb[lo + j]);
            assert(mb.subrange(mid, hi)[j - (mid - lo)] == first[j - (mid - lo)]);
        }
    }
    assert(mc.subrange(lo, hi) =~= second + first);
}

/// Stores x30 down to x1 in pairs, then x0 and the user stack pointer: the
/// part of the push sequence that both variants share. x0 serves as scratch
/// to read SP_EL0 and is loaded back from its saved slot.
fn store_registers(cpu: &mut CpuState, mem: &mut [u64])
    requires
        GP_REGS + 1 <= old(cpu).sp <= old(mem)@.len() <= usize::MAX,
    ensures
        pushed(*old(cpu), old(mem)@, *final(cpu), final(mem)@, seq![old(cpu).sp_el0] + old(cpu).x@),
{
    let ghost c0 = *cpu;
    let ghost m0 = mem@;
    let top = cpu.sp;
    let mut n: usize = 0;
    while n < 15
        invariant
            n <= 15,
            top == c0.sp,
            same_except_sp(c0, *cpu),
            cpu.sp == top - 2 * n,
            mem@.len() == m0.len(),
            GP_REGS + 1 <= top <= m0.len() <= usize::MAX,
            mem@.subrange(cpu.sp as int, top as int) == c0.x@.subrange(31 - 2 * n, 31),
            forall|i: int|
                0 <= i < m0.len() && !(cpu.sp <= i < top) ==> #[trigger] mem@[i] == m0[i],
        decreases 15 - n,
    {
        let ghost before = mem@;
        let ghost sp = cpu.sp as int;
        let a = 29 - 2 * n;
        store_pair_pre(cpu, mem, a, a + 1);
        let ghost lo = cpu.sp as int;
        assert forall|j: int| 0 <= j < top - lo implies #[trigger] mem@.subrange(lo, top as int)[j]
            == c0.x@.subrange(31 - 2 * (n + 1), 31)[j] by {
            if j >= 2 {
                assert(mem@[lo + j] == before[lo + j]);
                assert(before.subrange(sp, top as int)[j - 2] == c0.x@.subrange(
                    31 - 2 * n,
                    31,
                )[j - 2]);
            }
        }
        assert(mem@.subrange(lo, top as int) =~= c0.x@.subrange(31 - 2 * (n + 1), 31));
        n = n + 1;
    }
    // sub sp, sp, #16 ; str x0, [sp, #8] ; mrs x0, SP_EL0 ; str x0, [sp] ; ldr x0, [sp, #8]
    let ghost before = mem@;
    let sp = cpu.sp - 2;
    cpu.sp = sp;
    mem[sp + 1] = cpu.x[0];
    cpu.x[0] = cpu.sp_el0;
    mem[sp] = cpu.x[0];
    cpu.x[0] = mem[sp + 1];
    assert(cpu.x@ =~= c0.x@);
    assert(c0.x@.subrange(31 - 2 * 15, 31) =~= c0.x@.subrange(1, 31));
    assert forall|j: int| 0 <= j < top - sp implies #[trigger] mem@.subrange(sp as int, top as int)[j]
        == (seq![c0.sp_el0] + c0.x@)[j] by {
        if j >= 2 {
            assert(mem@[sp + j] == before[sp + j]);
            assert(before.subrange(sp + 2, top as int)[j - 2] == c0.x@.subrange(1, 31)[j - 2]);
        }
    }
    assert(mem@.subrange(sp as int, top as int) =~= seq![c0.sp_el0] + c0.x@);
}

/// Saves the registers on trap entry: the shared register stores, then the
/// saved status and link registers as the flags and program counter. x0 and
/// x1 serve as scratch and are loaded back from their saved slots.
pub fn push_context_on_trap(cpu: &mut CpuState, mem: &mut [u64])
    requires
        CONTEXT_WORDS <= old(cpu).sp <= old(mem)@.len() <= usize::MAX,
    ensures
        pushed_on_trap(*old(cpu), old(mem)@, *final(cpu), final(mem)@),
{
    let ghost c0 = *cpu;
    let ghost m0 = mem@;
    store_registers(cpu, mem);
    let ghost c1 = *cpu;
    let ghost m1 = mem@;
    assert(mem@[cpu.sp as int] == m1.subrange(c1.sp as int, c0.sp as int)[0]);
    assert(mem@[cpu.sp + 1] == m1.subrange(c1.sp as int, c0.sp as int)[1]);
    assert(mem@[cpu.sp + 2] == m1.subrange(c1.sp as int, c0.sp as int)[2]);
    // mrs x1, ELR_EL1 ; mrs x0, SPSR_EL1 ; stp x0, x1, [sp, #-16]!
    cpu.x[1] = cpu.elr;
    cpu.x[0] = cpu.spsr;
    store_pair_pre(cpu, mem, 0, 1);
    // ldp x0, x1, [sp, #8 * 3]
    let sp = cpu.sp;
    cpu.x[0] = mem[sp + 3];
    cpu.x[1] = mem[sp + 4];
    assert(cpu.x@ =~= c0.x@);
    assert(mem@.subrange(cpu.sp as int, c1.sp as int) =~= seq![c0.spsr, c0.elr]);
    proof {
        lemma_pushed_twice(
            c0,
            m0,
            c1,
            m1,
            *cpu,
            mem@,
            seq![c0.sp_el0] + c0.x@,
            seq![c0.spsr, c0.elr],
        );
        assert(seq![c0.spsr, c0.elr] + (seq![c0.sp_el0] + c0.x@) =~= frame(
            c0.spsr,
            c0.elr,
            c0.sp_el0,
            c0.x@,
        ));
    }
}

/// The path from a trap to the saved context: the vector stub saves x29 and
/// x30 and loads the handler address `entry` from its jump address cell into
/// x30; the entry code loads x29 and x30 back from the stub's save and runs
/// the push sequence. Nothing else touches the stack in between, so what is
/// saved is the register state at the moment of the trap.
pub fn enter_trap(cpu: &mut CpuState, mem: &mut [u64], entry: u64)
    requires
        CONTEXT_WORDS <= old(cpu).sp <= old(mem)@.len() <= usize::MAX,
    ensures
        pushed_on_trap(*old(cpu), old(mem)@, *final(cpu), final(mem)@),
{
    let ghost c0 = *cpu;
    let ghost m0 = mem@;
    // stp x29, x30, [sp, #-16]! ; ldr x30, <cell> ; br x30
    store_pair_pre(cpu, mem, 29, 30);
    cpu.x[30] = entry;
    // ldp x29, x30, [sp], #16
    load_pair_post(cpu, mem, 29, 30);
    assert(cpu.x@ =~= c0.x@);
    let ghost m1 = mem@;
    push_context_on_trap(cpu, mem);
    assert forall|i: int|
        0 <= i < m0.len() && !(cpu.sp <= i < c0.sp) implies #[trigger] mem@[i] == m0[i] by {
        assert(mem@[i] == m1[i]);
    }
}

/// Saves the registers on a voluntary switch: the shared register stores,
/// then a flags word synthesized from NZCV, CurrentEL and SPSel, and the
/// return address in x30 as the program counter. x18 and x30 serve as scratch
/// and are loaded back from the stack.
pub fn push_context_on_switch(cpu: &mut CpuState, mem: &mut [u64])
    requires
        CONTEXT_WORDS <= old(cpu).sp <= old(mem)@.len() <= usize::MAX,
    ensures
        pushed_on_switch(*old(cpu), old(mem)@, *final(cpu), final(mem)@),
{
    let ghost c0 = *cpu;
    let ghost m0 = mem@;
    store_registers(cpu, mem);
    let ghost c1 = *cpu;
    let ghost m1 = mem@;
    // sub sp, sp, #16 ; str x30, [sp, #8] ; str x18, [sp]
    let sp = cpu.sp - 2;
    cpu.sp = sp;
    mem[sp + 1] = cpu.x[30];
    mem[sp] = cpu.x[18];
    // mov x30, xzr ; then or in NZCV, CurrentEL and SPSel through x18
    cpu.x[30] = 0;
    cpu.x[18] = cpu.nzcv;
    cpu.x[30] = cpu.x[30] | cpu.x[18];
    cpu.x[18] = cpu.current_el;
    cpu.x[30] = cpu.x[30] | cpu.x[18];
    cpu.x[18] = cpu.spsel;
    cpu.x[30] = cpu.x[30] | cpu.x[18];
    // ldr x18, [sp] ; str x30, [sp] ; ldr x30, [sp, #8]
    cpu.x[18] = mem[sp];
    mem[sp] = cpu.x[30];
    cpu.x[30] = mem[sp + 1];
    let ghost flags = spec_switch_flags(c0.nzcv, c0.current_el, c0.spsel);
    assert(mem@[sp as int] == flags) by {
        let (n, e, p) = (c0.nzcv, c0.current_el, c0.spsel);
        assert(((0u64 | n) | e) | p == n | e | p) by (bit_vector);
    }
    assert(cpu.x@ =~= c0.x@);
    assert(mem@.subrange(cpu.sp as int, c1.sp as int) =~= seq![flags, c0.x@[30]]);
    proof {
        lemma_pushed_twice(
            c0,
            m0,
            c1,
            m1,
            *cpu,
            mem@,
            seq![c0.sp_el0] + c0.x@,
            seq![flags, c0.x@[30]],
        );
        assert(seq![flags, c0.x@[30]] + (seq![c0.sp_el0] + c0.x@) =~= frame(
            flags,
            c0.x@[30],
            c0.sp_el0,
            c0.x@,
        ));
    }
}

/// Restores the registers before the return: the flags and program counter
/// into the saved status and link registers, then the user stack pointer,
/// then x0 to x30 in pairs from the lowest up. The same sequence ends both
/// variants.
pub fn pop_context(cpu: &mut CpuState, mem: &[u64])
    requires
        old(cpu).sp + CONTEXT_WORDS <= mem@.len() <= usize::MAX,
    ensures
        popped(*old(cpu), mem@, *final(cpu)),
{
    let ghost c0 = *cpu;
    let s = cpu.sp;
    // ldp x0, x1, [sp], #16 ; msr SPSR_EL1, x0 ; msr ELR_EL1, x1
    load_pair_post(cpu, mem, 0, 1);
    cpu.spsr = cpu.x[0];
    cpu.elr = cpu.x[1];
    // ldp x1, x0, [sp], #16 ; msr SP_EL0, x1
    load_pair_post(cpu, mem, 1, 0);
    cpu.sp_el0 = cpu.x[1];
    let mut n: usize = 0;
    while n < 15
        invariant
            n <= 15,
            s == c0.sp,
            s + CONTEXT_WORDS <= mem@.len() <= usize::MAX,
            cpu.sp == s + 4 + 2 * n,
            cpu.spsr == mem@[s as int],
            cpu.elr == mem@[s + 1],
            cpu.sp_el0 == mem@[s + 2],
            cpu.x@[0] == mem@[s + 3],
            forall|r: int| 1 <= r < 1 + 2 * n ==> #[trigger] cpu.x@[r] == mem@[s + 3 + r],
            cpu.nzcv == c0.nzcv,
            cpu.current_el == c0.current_el,
            cpu.spsel == c0.spsel,
        decreases 15 - n,
    {
        let a = 2 * n + 1;
        load_pair_post(cpu, mem, a, a + 1);
        n = n + 1;
    }
    assert(cpu.x@ =~= mem@.subrange(s + 3, s + CONTEXT_WORDS));
}

/// Restoring a context that was saved on trap entry gives back every
/// general-purpose register, the user stack pointer, the saved status and
/// link registers and the stack pointer exactly as they were before the save.
pub proof fn lemma_trap_round_trip(
    before: CpuState,
    mem_before: Seq<u64>,
    saved: CpuState,
    mem_saved: Seq<u64>,
    after: CpuState,
)
    requires
        pushed_on_trap(before, mem_before, saved, mem_saved),
        popped(saved, mem_saved, after),
    ensures
        same_except_sp(before, after),
        after.sp == before.sp,
{
    let f = frame(before.spsr, before.elr, before.sp_el0, before.x@);
    let s = saved.sp as int;
    assert(mem_saved[s] == mem_saved.subrange(s, before.sp as int)[0]);
    assert(mem_saved[s + 1] == mem_saved.subrange(s, before.sp as int)[1]);
    assert(mem_saved[s + 2] == mem_saved.subrange(s, before.sp as int)[2]);
    assert(mem_saved.subrange(s + 3, s + CONTEXT_WORDS) =~= f.subrange(3, 34));
    assert(f.subrange(3, 34) =~= before.x@);
}

} // verus!

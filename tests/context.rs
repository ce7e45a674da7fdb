use kernel::context::{
    enter_trap, pop_context, push_context_on_switch, push_context_on_trap, Context, CpuState,
    CONTEXT_WORDS,
};

fn sample_cpu(sp: usize) -> CpuState {
    let mut x = [0u64; 31];
    for (i, r) in x.iter_mut().enumerate() {
        *r = 0x100 + i as u64;
    }
    CpuState {
        x,
        sp,
        sp_el0: 0x7000_0000,
        spsr: 0x6000_03c5,
        elr: 0x4008_1234,
        nzcv: 0x9000_0000,
        current_el: 0b0100,
        spsel: 1,
    }
}

fn same_registers(a: &CpuState, b: &CpuState) -> bool {
    a.x == b.x
        && a.sp == b.sp
        && a.sp_el0 == b.sp_el0
        && a.spsr == b.spsr
        && a.elr == b.elr
        && a.nzcv == b.nzcv
        && a.current_el == b.current_el
        && a.spsel == b.spsel
}

fn sample_memory() -> Vec<u64> {
    (0..64).map(|i| 0xaaaa_0000 + i as u64).collect()
}

#[test]
fn trap_push_lays_out_context() {
    let mut cpu = sample_cpu(60);
    let before = sample_cpu(60);
    let mut mem = sample_memory();
    let mem_before = mem.clone();
    push_context_on_trap(&mut cpu, &mut mem);
    assert_eq!(cpu.sp, 60 - CONTEXT_WORDS);
    assert_eq!(cpu.x, before.x);
    assert_eq!(cpu.sp_el0, before.sp_el0);
    let ctx = Context::from_stack(&mem, cpu.sp);
    assert_eq!(ctx.flags(), 0x6000_03c5);
    assert_eq!(ctx.pc(), 0x4008_1234);
    assert_eq!(ctx.usp(), 0x7000_0000);
    for i in 0..31 {
        assert_eq!(ctx.x(i), 0x100 + i as u64);
    }
    for i in 0..64 {
        if !(26..60).contains(&i) {
            assert_eq!(mem[i], mem_before[i]);
        }
    }
    assert_eq!(mem[26], 0x6000_03c5);
    assert_eq!(mem[28], 0x7000_0000);
    assert_eq!(mem[29], 0x100);
    assert_eq!(mem[59], 0x100 + 30);
}

#[test]
fn trap_round_trip_restores_registers() {
    let mut cpu = sample_cpu(64);
    let before = sample_cpu(64);
    let mut mem = sample_memory();
    push_context_on_trap(&mut cpu, &mut mem);
    // A handler may clobber every register but the stack pointer.
    cpu.x = [0xdead; 31];
    cpu.spsr = 0;
    cpu.elr = 0;
    cpu.sp_el0 = 0;
    pop_context(&mut cpu, &mem);
    assert!(same_registers(&cpu, &before));
}

#[test]
fn switch_push_synthesizes_flags() {
    let mut cpu = sample_cpu(40);
    let mut mem = sample_memory();
    push_context_on_switch(&mut cpu, &mut mem);
    assert_eq!(cpu.sp, 6);
    assert_eq!(cpu.x[18], 0x100 + 18);
    assert_eq!(cpu.x[30], 0x100 + 30);
    let ctx = Context::from_stack(&mem, cpu.sp);
    assert_eq!(ctx.flags(), 0x9000_0005);
    assert_eq!(ctx.pc(), 0x100 + 30);
    assert_eq!(ctx.usp(), 0x7000_0000);
    assert_eq!(ctx.x(0), 0x100);
}

#[test]
fn switch_pop_resumes_at_return_address() {
    let mut cpu = sample_cpu(40);
    let mut mem = sample_memory();
    push_context_on_switch(&mut cpu, &mut mem);
    pop_context(&mut cpu, &mem);
    assert_eq!(cpu.sp, 40);
    assert_eq!(cpu.spsr, 0x9000_0005);
    assert_eq!(cpu.elr, 0x100 + 30);
    assert_eq!(cpu.x, sample_cpu(40).x);
}

#[test]
fn trap_entry_saves_pre_trap_registers() {
    let mut via_entry = sample_cpu(50);
    let mut direct = sample_cpu(50);
    let mut mem_entry = sample_memory();
    let mut mem_direct = sample_memory();
    enter_trap(&mut via_entry, &mut mem_entry, 0xffff_0000_1234_5678);
    push_context_on_trap(&mut direct, &mut mem_direct);
    assert!(same_registers(&via_entry, &direct));
    assert_eq!(mem_entry, mem_direct);
    let ctx = Context::from_stack(&mem_entry, via_entry.sp);
    assert_eq!(ctx.x(30), 0x100 + 30);
    assert_eq!(ctx.x(29), 0x100 + 29);
    pop_context(&mut via_entry, &mem_entry);
    assert!(same_registers(&via_entry, &sample_cpu(50)));
}

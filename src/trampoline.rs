//! The code of a vector table: sixteen fixed stubs, 0x80 bytes apart, each of
//! which saves x29 and x30, loads its handler address from its own cell of
//! the jump address table that follows the code, and branches to it.
use vstd::prelude::*;

verus! {

/// Bytes between two vector slots, as the architecture fixes them.
pub const SLOT_BYTES: usize = 0x80;

/// Bytes of code in a vector table; the jump address table follows them.
pub const TEXT_BYTES: usize = 0x800;

/// 32-bit instruction words in the code of a vector table.
pub const TEXT_WORDS: usize = 512;

/// Instruction words in one slot.
pub const SLOT_WORDS: usize = 32;

/// `stp x29, x30, [sp, #-16]!`
pub const INSN_STP_X29_X30_PRE: u32 = 0xa9bf7bfd;

/// `ldr x30, <literal>` with a zero offset; the offset in words goes in bits
/// 5 to 23.
pub const INSN_LDR_X30_LITERAL: u32 = 0x5800001e;

/// `br x30`
pub const INSN_BR_X30: u32 = 0xd61f03c0;

/// `nop`, which fills the rest of each slot.
pub const INSN_NOP: u32 = 0xd503201f;

/// Byte offset, from the start of the table, of jump address cell `i`.
pub open spec fn cell_offset(i: int) -> int {
    TEXT_BYTES + 8 * i
}

/// Byte offset of the load instruction in slot `i`.
pub open spec fn load_offset(i: int) -> int {
    SLOT_BYTES * i + 4
}

/// A load of x30 from the literal `delta` bytes past the instruction.
pub open spec fn ldr_x30_literal(delta: int) -> int {
    INSN_LDR_X30_LITERAL + (delta / 4) * 32
}

/// The address that a literal load of x30 placed at `pc` reads.
pub open spec fn literal_target(pc: int, word: int) -> int {
    pc + ((word - INSN_LDR_X30_LITERAL) / 32) * 4
}

/// The instruction word at index `w` of the code of a vector table.
pub open spec fn text_word(w: int) -> int {
    let slot = w / SLOT_WORDS as int;
    let pos = w % SLOT_WORDS as int;
    if pos == 0 {
        INSN_STP_X29_X30_PRE as int
    } else if pos == 1 {
        ldr_x30_literal(cell_offset(slot) - load_offset(slot))
    } else if pos == 2 {
        INSN_BR_X30 as int
    } else {
        INSN_NOP as int
    }
}

/// The load instruction of slot `i`.
fn slot_load(i: usize) -> (r: u32)
    requires
        i < 16,
    ensures
        r == ldr_x30_literal(cell_offset(i as int) - load_offset(i as int)),
{
    // The cell lies 0x7fc - 0x78 * i bytes past the load: 511 - 30 * i words.
    let words = 511 - 30 * (i as u32);
    assert(cell_offset(i as int) - load_offset(i as int) == 4 * (511 - 30 * i));
    INSN_LDR_X30_LITERAL + words * 32
}

/// Generates the code of a vector table: in every slot the save of x29 and
/// x30, the load of the slot's own jump address cell into x30 and the branch
/// to it, then `nop` up to the next slot.
pub fn vector_text() -> (r: Vec<u32>)
    ensures
        r@.len() == TEXT_WORDS,
        forall|w: int| 0 <= w < TEXT_WORDS ==> #[trigger] r@[w] == text_word(w),
{
    let mut r: Vec<u32> = Vec::new();
    let mut w: usize = 0;
    while w < TEXT_WORDS
        invariant
            w <= TEXT_WORDS,
            r@.len() == w,
            forall|j: int| 0 <= j < w ==> #[trigger] r@[j] == text_word(j),
        decreases TEXT_WORDS - w,
    {
        let pos = w % SLOT_WORDS;
        let word = if pos == 0 {
            INSN_STP_X29_X30_PRE
        } else if pos == 1 {
            slot_load(w / SLOT_WORDS)
        } else if pos == 2 {
            INSN_BR_X30
        } else {
            INSN_NOP
        };
        r.push(word);
        w = w + 1;
    }
    r
}

/// The stub of slot `i` starts at the slot's architectural offset, and its
/// load reads exactly the jump address cell `i`, so each slot dispatches
/// through its own cell.
pub proof fn lemma_slot_reads_own_cell(i: int)
    requires
        0 <= i < 16,
    ensures
        text_word(SLOT_WORDS * i) == INSN_STP_X29_X30_PRE,
        text_word(SLOT_WORDS * i + 1) == ldr_x30_literal(cell_offset(i) - load_offset(i)),
        text_word(SLOT_WORDS * i + 2) == INSN_BR_X30,
        4 * (SLOT_WORDS * i + 1) == load_offset(i),
        literal_target(load_offset(i), text_word(SLOT_WORDS * i + 1)) == cell_offset(i),
{
    assert((SLOT_WORDS * i) / SLOT_WORDS as int == i);
    assert((SLOT_WORDS * i + 1) / SLOT_WORDS as int == i);
    assert((SLOT_WORDS * i + 2) / SLOT_WORDS as int == i);
    assert((SLOT_WORDS * i + 1) % SLOT_WORDS as int == 1);
    assert((SLOT_WORDS * i + 2) % SLOT_WORDS as int == 2);
    assert((SLOT_WORDS * i) % SLOT_WORDS as int == 0);
}

} // verus!

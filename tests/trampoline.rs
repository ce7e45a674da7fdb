use kernel::trampoline::{
    vector_text, INSN_BR_X30, INSN_LDR_X30_LITERAL, INSN_NOP, INSN_STP_X29_X30_PRE,
    SLOT_WORDS, TEXT_BYTES, TEXT_WORDS,
};

#[test]
fn text_fills_two_kilobytes() {
    assert_eq!(vector_text().len(), TEXT_WORDS);
    assert_eq!(TEXT_WORDS * 4, TEXT_BYTES);
}

#[test]
fn first_slot_encoding() {
    let text = vector_text();
    assert_eq!(text[0], 0xa9bf7bfd);
    assert_eq!(text[1], 0x5800_3ffe);
    assert_eq!(text[2], 0xd61f03c0);
    assert_eq!(text[3], 0xd503201f);
    assert_eq!(text[31], 0xd503201f);
    assert_eq!(text[33], 0x5800_3c3e);
}

#[test]
fn every_slot_loads_its_own_cell() {
    let text = vector_text();
    for i in 0..16usize {
        let base = SLOT_WORDS * i;
        assert_eq!(text[base], INSN_STP_X29_X30_PRE);
        assert_eq!(text[base + 2], INSN_BR_X30);
        for w in base + 3..base + SLOT_WORDS {
            assert_eq!(text[w], INSN_NOP);
        }
        let load = text[base + 1];
        assert_eq!(load & 0xff00_001f, INSN_LDR_X30_LITERAL);
        let pc = 4 * (base + 1);
        let target = pc + 4 * ((load >> 5) & 0x7ffff) as usize;
        assert_eq!(target, TEXT_BYTES + 8 * i);
    }
}

use kernel::vector_table::{
    handler_index, setup_interrupts, slot_key, ExceptionKind, ExceptionRelativeLevel,
    ExceptionStack, VectorTable,
};

const LEVELS: [ExceptionRelativeLevel; 2] =
    [ExceptionRelativeLevel::Current, ExceptionRelativeLevel::Lower];
const STACKS: [ExceptionStack; 2] = [ExceptionStack::Sp0, ExceptionStack::SpN];
const KINDS: [ExceptionKind; 4] =
    [ExceptionKind::Sync, ExceptionKind::Irq, ExceptionKind::Fiq, ExceptionKind::Serr];

fn all_keys() -> Vec<(ExceptionRelativeLevel, ExceptionStack, ExceptionKind)> {
    let mut keys = Vec::new();
    for l in LEVELS {
        for s in STACKS {
            for k in KINDS {
                keys.push((l, s, k));
            }
        }
    }
    keys
}

fn cells(t: &VectorTable) -> Vec<u64> {
    let mut v = vec![0u64; 16];
    for (l, s, k) in all_keys() {
        v[handler_index(l, s, k)] = t.get_handler(l, s, k);
    }
    v
}

/// A table whose cell `i` holds `1000 + i`.
fn numbered_table() -> VectorTable {
    let mut t = VectorTable::new();
    for (l, s, k) in all_keys() {
        t.set_handler(l, s, k, 1000 + handler_index(l, s, k) as u64);
    }
    t
}

#[test]
fn index_is_sum_of_offsets() {
    assert_eq!(
        handler_index(ExceptionRelativeLevel::Current, ExceptionStack::Sp0, ExceptionKind::Sync),
        0
    );
    assert_eq!(
        handler_index(ExceptionRelativeLevel::Current, ExceptionStack::SpN, ExceptionKind::Irq),
        5
    );
    assert_eq!(
        handler_index(ExceptionRelativeLevel::Lower, ExceptionStack::Sp0, ExceptionKind::Serr),
        11
    );
    assert_eq!(
        handler_index(ExceptionRelativeLevel::Lower, ExceptionStack::SpN, ExceptionKind::Fiq),
        14
    );
}

#[test]
fn every_key_has_its_own_slot() {
    let mut seen = vec![false; 16];
    for (l, s, k) in all_keys() {
        let i = handler_index(l, s, k);
        assert!(!seen[i]);
        seen[i] = true;
        assert_eq!(slot_key(i), (l, s, k));
    }
    assert!(seen.iter().all(|b| *b));
}

#[test]
fn new_table_is_zero() {
    assert_eq!(cells(&VectorTable::new()), vec![0u64; 16]);
}

#[test]
fn set_handler_writes_one_cell() {
    for (l, s, k) in all_keys() {
        let mut t = numbered_table();
        let before = cells(&t);
        t.set_handler(l, s, k, 0xdead_beef);
        assert_eq!(t.get_handler(l, s, k), 0xdead_beef);
        let after = cells(&t);
        let written = handler_index(l, s, k);
        for i in 0..16 {
            if i != written {
                assert_eq!(after[i], before[i]);
            }
        }
    }
}

#[test]
fn set_kind_handler_sync_writes_sync_cells() {
    let mut t = numbered_table();
    t.set_kind_handler(ExceptionKind::Sync, 7);
    let after = cells(&t);
    for i in 0..16 {
        if i % 4 == 0 {
            assert_eq!(after[i], 7);
        } else {
            assert_eq!(after[i], 1000 + i as u64);
        }
    }
}

#[test]
fn set_kind_handler_irq_writes_irq_cells() {
    let mut t = numbered_table();
    t.set_kind_handler(ExceptionKind::Irq, 9);
    assert_eq!(
        cells(&t),
        vec![
            1000, 9, 1002, 1003, 1004, 9, 1006, 1007, 1008, 9, 1010, 1011, 1012, 9, 1014, 1015
        ]
    );
}

#[test]
fn set_default_handler_writes_all_cells() {
    let mut t = numbered_table();
    t.set_default_handler(42);
    assert_eq!(cells(&t), vec![42u64; 16]);
}

#[test]
fn setup_interrupts_routes_sync_apart() {
    let mut t = numbered_table();
    setup_interrupts(&mut t, 0x1111, 0x2222);
    for (l, s, k) in all_keys() {
        let expected = if k == ExceptionKind::Sync { 0x2222 } else { 0x1111 };
        assert_eq!(t.get_handler(l, s, k), expected);
    }
}

use kernel::sync::{spin_move, SpinMove, Spinlock};

#[test]
fn new_lock_is_free() {
    let lock = Spinlock::new(5u32);
    let guard = lock.lock(100).expect("a free lock is acquired");
    assert_eq!(guard.get(), 5);
}

#[test]
fn held_lock_is_not_acquired_again() {
    let lock = Spinlock::new(0u64);
    let guard = lock.lock(100).expect("a free lock is acquired");
    assert!(lock.lock(1).is_none());
    assert!(lock.lock(50).is_none());
    drop(guard);
}

#[test]
fn dropping_guard_releases() {
    let lock = Spinlock::new(1u8);
    {
        let guard = lock.lock(100).unwrap();
        guard.set(2);
    }
    let guard = lock.lock(100).expect("released by the drop");
    assert_eq!(guard.get(), 2);
}

#[test]
fn early_exit_releases() {
    fn bump(lock: &Spinlock<u32>, stop: bool) -> Option<u32> {
        let guard = lock.lock(100)?;
        if stop {
            return None;
        }
        let v = guard.get() + 1;
        guard.set(v);
        Some(v)
    }
    let lock = Spinlock::new(10u32);
    assert_eq!(bump(&lock, true), None);
    assert_eq!(bump(&lock, false), Some(11));
    assert_eq!(bump(&lock, false), Some(12));
}

#[test]
fn zero_rounds_never_acquire() {
    let lock = Spinlock::new(());
    assert!(lock.lock(0).is_none());
    assert!(lock.lock(100).is_some());
}

#[test]
fn replace_returns_previous_payload() {
    let lock = Spinlock::new(String::from("a"));
    let guard = lock.lock(100).unwrap();
    assert_eq!(guard.replace(String::from("b")), "a");
    assert_eq!(guard.replace(String::from("c")), "b");
}

#[test]
fn won_attempt_takes_guard() {
    assert_eq!(spin_move(true, true, 5), SpinMove::TakeGuard);
    assert_eq!(spin_move(true, true, 0), SpinMove::TakeGuard);
}

#[test]
fn lost_attempt_rereads_without_writing() {
    assert_eq!(spin_move(true, false, 5), SpinMove::Reread);
}

#[test]
fn wait_continues_while_flag_set() {
    assert_eq!(spin_move(false, true, 3), SpinMove::Reread);
}

#[test]
fn clear_flag_leads_to_attempt() {
    assert_eq!(spin_move(false, false, 3), SpinMove::Attempt);
}

#[test]
fn no_accesses_left_gives_up() {
    assert_eq!(spin_move(true, false, 0), SpinMove::GiveUp);
    assert_eq!(spin_move(false, true, 0), SpinMove::GiveUp);
    assert_eq!(spin_move(false, false, 0), SpinMove::GiveUp);
}

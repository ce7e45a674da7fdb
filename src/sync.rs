//! A spinlock usable before any scheduler exists, and an abstract model of
//! its flag protocol on which mutual exclusion is proved. The lock type is
//! not `Sync` (its payload cell is not), and nothing links the model to it.
use core::sync::atomic::{AtomicBool, Ordering};
use vstd::cell::invcell::InvCell;
use vstd::predicate::Predicate;
use vstd::prelude::*;

verus! {

/// Relies on core::hint::spin_loop: a processor hint for a busy-wait loop,
/// with no effect that the program can observe.
pub assume_specification[ core::hint::spin_loop ]();

/// Relies on AtomicBool::store, which its documentation says panics only
/// for the orderings Acquire and AcqRel, and touches no invariant of this
/// program.
#[verifier::external_body]
fn store_flag(flag: &AtomicBool, value: bool, order: Ordering)
    requires
        !(order is Acquire || order is AcqRel),
    opens_invariants none
    no_unwind
{
    flag.store(value, order)
}

/// The payload predicate of a spinlock: every value is allowed.
pub struct AnyValue;

impl<T> Predicate<T> for AnyValue {
    open spec fn predicate(&self, v: T) -> bool {
        true
    }
}

/// A payload guarded by an atomic flag. The payload is reached only through
/// the guard that a successful acquire hands out, and dropping the guard is
/// the one way to release the flag.
///
/// The payload lives in a vstd `InvCell`, which is not `Sync`, so a
/// `Spinlock` cannot be placed in a `static` or shared between threads; the
/// flag protocol is the same as that of a shared lock.
#[verifier::reject_recursive_types(T)]
pub struct Spinlock<T> {
    data: InvCell<T, AnyValue>,
    lock: AtomicBool,
}

/// Proof that the current core holds a spinlock.
#[verifier::reject_recursive_types(T)]
pub struct SpinlockGuard<'lock, T> {
    spin: &'lock Spinlock<T>,
}

impl<'lock, T> SpinlockGuard<'lock, T> {
    /// The lock that this guard holds.
    pub closed spec fn lock_of(&self) -> &'lock Spinlock<T> {
        self.spin
    }

    /// Stores `value` as the payload and returns the one it replaces.
    pub fn replace(&self, value: T) -> T {
        self.spin.data.replace(value)
    }

    /// Stores `value` as the payload.
    pub fn set(&self, value: T) {
        self.spin.data.set(value)
    }
}

impl<'lock, T: Copy> SpinlockGuard<'lock, T> {
    /// A copy of the payload.
    pub fn get(&self) -> T {
        self.spin.data.get()
    }
}

impl<'lock, T> Drop for SpinlockGuard<'lock, T> {
    /// Releases the lock: stores "unlocked" with release ordering.
    fn drop(&mut self)
        opens_invariants none
        no_unwind
    {
        store_flag(&self.spin.lock, false, Ordering::Release);
    }
}

impl<T> Spinlock<T> {
    /// An unlocked spinlock that holds `value`.
    pub fn new(value: T) -> (r: Spinlock<T>) {
        Spinlock { data: InvCell::new(value, Ghost(AnyValue)), lock: AtomicBool::new(false) }
    }

    /// Tries to acquire the lock, touching the flag at most `rounds` times.
    /// Each attempt is a compare-and-swap from unlocked to locked, with
    /// acquire ordering on success; after a lost one the flag is re-read with
    /// relaxed ordering, without writing, until it is seen clear, and then
    /// the next attempt follows. Every step after an atomic access is the one
    /// that `spin_move` decides. Returns the guard if an attempt won.
    pub fn lock(&self, rounds: u64) -> (r: Option<SpinlockGuard<'_, T>>)
        ensures
            r matches Some(g) ==> g.lock_of() == self,
            rounds == 0 ==> r is None,
            r is Some ==> rounds > 0,
    {
        let mut left = rounds;
        let mut next = spin_move(false, false, left);
        loop
            invariant
                left <= rounds,
                (next is Attempt || next is Reread) ==> left > 0,
                next is TakeGuard ==> rounds > 0,
            decreases left,
        {
            match next {
                SpinMove::TakeGuard => {
                    return Some(SpinlockGuard { spin: self });
                },
                SpinMove::GiveUp => {
                    return None;
                },
                SpinMove::Attempt => {
                    left = left - 1;
                    let won = self.lock.compare_exchange_weak(
                        false,
                        true,
                        Ordering::Acquire,
                        Ordering::Relaxed,
                    ).is_ok();
                    next = spin_move(true, won, left);
                },
                SpinMove::Reread => {
                    left = left - 1;
                    core::hint::spin_loop();
                    let set = self.lock.load(Ordering::Relaxed);
                    next = spin_move(false, set, left);
                },
            }
        }
    }
}

/// The step that `Spinlock::lock` takes after an access to the flag.
#[derive(Clone, Copy, Debug, PartialEq, Eq, Structural)]
pub enum SpinMove {
    /// The compare-and-swap won: hand out the guard.
    TakeGuard,
    /// Make a compare-and-swap attempt.
    Attempt,
    /// Read the flag again, without writing.
    Reread,
    /// No accesses are left: give up without the lock.
    GiveUp,
}

/// What follows an access to the flag. `attempted` tells a compare-and-swap
/// from a relaxed read; `observed` is, for the former, whether it won and,
/// for the latter, whether the flag was seen set; `left` is the number of
/// accesses still allowed. A won attempt takes the guard; otherwise, with no
/// accesses left, the lock gives up; a read that sees the flag clear leads
/// to a new attempt; a lost attempt, or a read that sees the flag set, leads
/// to another read.
pub open spec fn spec_spin_move(attempted: bool, observed: bool, left: u64) -> SpinMove {
    if attempted && observed {
        SpinMove::TakeGuard
    } else if left == 0 {
        SpinMove::GiveUp
    } else if !attempted && !observed {
        SpinMove::Attempt
    } else {
        SpinMove::Reread
    }
}

/// Decides the step that follows an access to the flag.
pub fn spin_move(attempted: bool, observed: bool, left: u64) -> (r: SpinMove)
    ensures
        r == spec_spin_move(attempted, observed, left),
{
    if attempted && observed {
        SpinMove::TakeGuard
    } else if left == 0 {
        SpinMove::GiveUp
    } else if !attempted && !observed {
        SpinMove::Attempt
    } else {
        SpinMove::Reread
    }
}

/// One move of a core in an abstract model of a spinlock's flag protocol:
/// an acquire attempt, standing for a compare-and-swap from unlocked to
/// locked, or a release, standing for the store of a guard's drop. The model
/// is its own: no clause links it to `Spinlock::lock` or to the drop, since
/// the flag of a std atomic has no view here.
pub enum LockEvent {
    Acquire(nat),
    Release(nat),
}

/// The state of the flag protocol: the flag, and the cores that hold a guard.
pub type LockState = (bool, Set<nat>);

/// The state before any move: unlocked, and nobody holds a guard.
pub open spec fn lock_init() -> LockState {
    (false, Set::empty())
}

/// The effect of one move. An acquire attempt wins only on a clear flag; a
/// release comes only from a holder, by dropping its guard.
pub open spec fn lock_step(s: LockState, e: LockEvent) -> LockState {
    match e {
        LockEvent::Acquire(c) => if !s.0 {
            (true, s.1.insert(c))
        } else {
            s
        },
        LockEvent::Release(c) => if s.1.contains(c) {
            (false, s.1.remove(c))
        } else {
            s
        },
    }
}

/// The state after the moves of `trace`, in order, from the initial state.
pub open spec fn lock_run(trace: Seq<LockEvent>) -> LockState
    decreases trace.len(),
{
    if trace.len() == 0 {
        lock_init()
    } else {
        lock_step(lock_run(trace.drop_last()), trace.last())
    }
}

/// At most one core holds a guard, and one does exactly when the flag is set.
pub open spec fn exclusive(s: LockState) -> bool {
    if s.0 {
        exists|c: nat| s.1 == Set::<nat>::empty().insert(c)
    } else {
        s.1 == Set::<nat>::empty()
    }
}

/// Each move keeps the protocol exclusive.
proof fn lemma_step_exclusive(s: LockState, e: LockEvent)
    requires
        exclusive(s),
    ensures
        exclusive(lock_step(s, e)),
{
    match e {
        LockEvent::Acquire(c) => {
            if !s.0 {
                assert(s.1.insert(c) == Set::<nat>::empty().insert(c));
            }
        },
        LockEvent::Release(c) => {
            if s.1.contains(c) {
                let h = choose|h: nat| s.1 == Set::<nat>::empty().insert(h);
                assert(s.1.contains(h));
                assert(h == c);
                assert(s.1.remove(c) =~= Set::<nat>::empty());
            }
        },
    }
}

/// Mutual exclusion, of the abstract protocol model only: whatever the
/// interleaving of the cores' acquire attempts and releases, at most one core
/// holds a guard at any time, and the flag is set exactly while one does.
/// Nothing here ties the model to the executable `Spinlock`.
pub proof fn lemma_mutual_exclusion(trace: Seq<LockEvent>)
    ensures
        exclusive(lock_run(trace)),
        forall|a: nat, b: nat|
            lock_run(trace).1.contains(a) && lock_run(trace).1.contains(b) ==> a == b,
    decreases trace.len(),
{
    if trace.len() > 0 {
        lemma_mutual_exclusion(trace.drop_last());
        lemma_step_exclusive(lock_run(trace.drop_last()), trace.last());
    }
    let s = lock_run(trace);
    if s.0 {
        let h = choose|h: nat| s.1 == Set::<nat>::empty().insert(h);
        assert forall|a: nat, b: nat| s.1.contains(a) && s.1.contains(b) implies a == b by {
            assert(a == h && b == h);
        }
    }
}

/// Two cores that race for a clear flag: whichever attempt comes first wins,
/// and the other finds the flag set and holds nothing.
pub proof fn lemma_racing_acquires(trace: Seq<LockEvent>, first: nat, second: nat)
    requires
        !lock_run(trace).0,
        first != second,
    ensures
        lock_run(trace.push(LockEvent::Acquire(first)).push(LockEvent::Acquire(second))).1
            == Set::<nat>::empty().insert(first),
{
    lemma_mutual_exclusion(trace);
    let t1 = trace.push(LockEvent::Acquire(first));
    let t2 = t1.push(LockEvent::Acquire(second));
    assert(t1.drop_last() == trace);
    assert(t2.drop_last() == t1);
    assert(t1.last() == LockEvent::Acquire(first));
    assert(t2.last() == LockEvent::Acquire(second));
    assert(lock_run(trace).1 == Set::<nat>::empty());
    assert(lock_run(t1) == (true, Set::<nat>::empty().insert(first)));
    assert(lock_run(t2) == lock_run(t1));
}

/// Releasing a guard clears the flag, and then nobody holds the lock.
pub proof fn lemma_release_clears_flag(trace: Seq<LockEvent>, holder: nat)
    requires
        lock_run(trace).1.contains(holder),
    ensures
        !lock_run(trace.push(LockEvent::Release(holder))).0,
        lock_run(trace.push(LockEvent::Release(holder))).1 == Set::<nat>::empty(),
{
    let t = trace.push(LockEvent::Release(holder));
    assert(t.drop_last() == trace);
    lemma_mutual_exclusion(t);
}

} // verus!

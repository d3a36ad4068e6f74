//! Mutual exclusion between the two cores: a lock flag whose transitions
//! are made under the hardware spinlock, and a mutex that pairs a lock with
//! the value it guards.
//!
//! The flag changes only through `try_lock` and `release`. Whoever shares a
//! lock between the cores makes each of these calls while holding the one
//! hardware spinlock, and waits a short while between failed attempts.

use vstd::prelude::*;

verus! {

/// How long, in microseconds, a context waits after a failed attempt before
/// it tries again.
pub const RETRY_DELAY_US: u32 = 1;

/// The flag after one test-and-set attempt on a lock whose flag is `held`,
/// and whether the attempt acquired the lock: exactly when it was free.
pub open spec fn try_lock_outcome(held: bool) -> (bool, bool) {
    (true, !held)
}

/// A lock: a flag that is set exactly while some context holds it.
pub struct Lock {
    /// Whether the lock is held.
    held: bool,
}

impl Lock {
    /// Whether the lock is held.
    pub closed spec fn is_held(&self) -> bool {
        self.held
    }

    /// Creates a free lock.
    pub fn new() -> (r: Lock)
        ensures
            !r.is_held(),
    {
        Lock { held: false }
    }

    /// One test-and-set attempt: acquires the lock if it is free, and
    /// reports whether it did. A held lock stays held.
    pub fn try_lock(&mut self) -> (acquired: bool)
        ensures
            (final(self).is_held(), acquired) == try_lock_outcome(old(self).is_held()),
    {
        let acquired = !self.held;
        if acquired {
            self.held = true;
        }
        acquired
    }

    /// Frees the lock. This is allowed whether or not the lock is held, and
    /// whoever calls it.
    pub fn release(&mut self)
        ensures
            !final(self).is_held(),
    {
        self.held = false;
    }

    /// Acquires the lock, calls `f`, releases the lock, and returns what `f`
    /// returned. `f` must not acquire the lock again.
    pub fn synchronized<F: FnOnce() -> R, R>(&mut self, f: F) -> (r: R)
        requires
            !old(self).is_held(),
            f.requires(()),
        ensures
            f.ensures((), r),
            !final(self).is_held(),
    {
        self.try_lock();
        let result = f();
        self.release();
        result
    }
}

/// One step of a context on a shared lock: an attempt to acquire it, or a
/// release. Contexts are told apart by a number.
pub enum LockEvent {
    /// A test-and-set attempt by the context.
    Attempt(nat),
    /// A release by the context.
    Release(nat),
}

/// The lock's flag and the contexts inside their critical sections after
/// one step. A context enters exactly when its attempt acquires the lock and
/// leaves when it releases.
pub open spec fn lock_step(held: bool, inside: Set<nat>, ev: LockEvent) -> (bool, Set<nat>) {
    match ev {
        LockEvent::Attempt(c) => {
            let (now_held, acquired) = try_lock_outcome(held);
            (now_held, if acquired { inside.insert(c) } else { inside })
        },
        LockEvent::Release(c) => (false, inside.remove(c)),
    }
}

/// A step that keeps to the lock's contract: a context does not attempt to
/// acquire a lock it holds, and releases only a lock it holds or a lock that
/// nobody holds.
pub open spec fn lock_step_allowed(inside: Set<nat>, ev: LockEvent) -> bool {
    match ev {
        LockEvent::Attempt(c) => !inside.contains(c),
        LockEvent::Release(c) => inside.contains(c) || inside.is_empty(),
    }
}

/// The state after a sequence of steps from a free lock with nobody inside.
pub open spec fn run_lock(events: Seq<LockEvent>) -> (bool, Set<nat>)
    decreases events.len(),
{
    if events.len() == 0 {
        (false, Set::empty())
    } else {
        let before = run_lock(events.drop_last());
        lock_step(before.0, before.1, events.last())
    }
}

/// Every step of the sequence keeps to the lock's contract.
pub open spec fn lock_run_allowed(events: Seq<LockEvent>) -> bool
    decreases events.len(),
{
    if events.len() == 0 {
        true
    } else {
        lock_run_allowed(events.drop_last()) && lock_step_allowed(
            run_lock(events.drop_last()).1,
            events.last(),
        )
    }
}

/// Mutual exclusion: however the steps of any number of contexts interleave,
/// as long as each keeps to the lock's contract, at most one context is
/// inside its critical section at any time, and the flag is set exactly when
/// one is. A release by a context that never acquired the lock, made while
/// the lock is free, leaves it free, so later acquisitions by others behave
/// as before.
pub proof fn lemma_lock_exclusive(events: Seq<LockEvent>)
    requires
        lock_run_allowed(events),
    ensures
        ({
            let (held, inside) = run_lock(events);
            &&& inside.finite()
            &&& inside.len() <= 1
            &&& held == !inside.is_empty()
        }),
    decreases events.len(),
{
    if events.len() > 0 {
        let before = events.drop_last();
        lemma_lock_exclusive(before);
        let (held, inside) = run_lock(before);
        match events.last() {
            LockEvent::Attempt(c) => {
                if !held {
                    assert(inside =~= Set::<nat>::empty());
                    assert(inside.insert(c) =~= Set::<nat>::empty().insert(c));
                }
            },
            LockEvent::Release(c) => {
                if inside.contains(c) {
                    assert(inside.remove(c) =~= Set::<nat>::empty()) by {
                        assert forall|x: nat| !inside.remove(c).contains(x) by {
                            if x != c && inside.contains(x) {
                                assert(inside.remove(x).contains(c));
                                assert(inside.remove(x).len() == 0);
                            }
                        }
                    }
                } else {
                    assert(inside.remove(c) =~= Set::<nat>::empty());
                }
            },
        }
    }
}

/// A value that is only reachable while a lock is held.
pub struct Mutex<'a, T> {
    /// The lock.
    lock: &'a mut Lock,
    /// The value; empty only while a synchronized call has it out.
    value: Option<T>,
}

impl<'a, T> Mutex<'a, T> {
    /// The guarded value, if it is in place.
    pub closed spec fn slot(&self) -> Option<T> {
        self.value
    }

    /// The lock.
    pub closed spec fn guard(&self) -> Lock {
        *self.lock
    }

    /// Well-formedness: the value is in place and the lock is free.
    pub open spec fn wf(&self) -> bool {
        &&& self.slot() is Some
        &&& !self.guard().is_held()
    }

    /// Creates a mutex that guards `value` with `lock`.
    pub fn new(lock: &'a mut Lock, value: T) -> (r: Self)
        requires
            !old(lock).is_held(),
        ensures
            r.wf(),
            r.slot() == Some(value),
    {
        Mutex { lock, value: Some(value) }
    }

    /// Calls `f` on the value while the lock is held, puts the value back,
    /// and returns what `f` returned. The value `f` leaves behind is the one
    /// the next call sees.
    pub fn synchronized<F: FnOnce(&mut T) -> R, R>(&mut self, f: F) -> (r: R)
        requires
            old(self).wf(),
            forall|v: &mut T| *v == old(self).slot()->Some_0 ==> f.requires((v,)),
        ensures
            final(self).wf(),
            exists|v: &mut T|
                *v == old(self).slot()->Some_0 && f.ensures((v,), r) && final(self).slot() == Some(
                    *final(v),
                ),
    {
        self.lock.try_lock();
        let mut value = self.value.take().unwrap();
        let result = f(&mut value);
        self.value = Some(value);
        self.lock.release();
        result
    }
}

} // verus!

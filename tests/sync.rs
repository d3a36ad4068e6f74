use pico_shim::sync::{Lock, Mutex, RETRY_DELAY_US};

#[test]
fn try_lock_acquires_only_a_free_lock() {
    let mut lock = Lock::new();
    assert!(lock.try_lock());
    assert!(!lock.try_lock());
    lock.release();
    assert!(lock.try_lock());
}

#[test]
fn release_without_acquire_is_harmless() {
    let mut lock = Lock::new();
    lock.release();
    lock.release();
    assert!(lock.try_lock());
    assert!(!lock.try_lock());
}

#[test]
fn synchronized_returns_result_and_frees_lock() {
    let mut lock = Lock::new();
    let r = lock.synchronized(|| 41 + 1);
    assert_eq!(r, 42);
    assert!(lock.try_lock());
}

#[test]
fn simulated_contexts_never_overlap() {
    // Two contexts take turns one step at a time: each attempts until it
    // acquires, runs its critical section for a few steps, then releases.
    let mut lock = Lock::new();
    let mut inside = [false, false];
    let mut remaining = [0u32, 0];
    let mut entries = [0u32, 0];
    let mut stray_done = false;
    for step in 0..200u32 {
        let c = (step % 2) as usize;
        if step >= 50 && !stray_done && !inside[0] && !inside[1] {
            // A stray release from a context that never acquired, made
            // while the lock is free.
            lock.release();
            stray_done = true;
        }
        if inside[c] {
            if remaining[c] == 0 {
                inside[c] = false;
                lock.release();
            } else {
                remaining[c] -= 1;
            }
        } else if lock.try_lock() {
            inside[c] = true;
            remaining[c] = 3;
            entries[c] += 1;
        }
        assert!(!(inside[0] && inside[1]));
    }
    assert!(stray_done);
    assert!(entries[0] > 5);
    assert!(entries[1] > 5);
    assert_eq!(RETRY_DELAY_US, 1);
}

#[test]
fn mutex_keeps_value_between_calls() {
    let mut lock = Lock::new();
    {
        let mut m = Mutex::new(&mut lock, vec![1u32]);
        let len = m.synchronized(|v: &mut Vec<u32>| {
            for i in 2..=10 {
                v.push(i);
            }
            v.retain(|x| x % 2 == 0);
            v.len()
        });
        assert_eq!(len, 5);
        let seen = m.synchronized(|v: &mut Vec<u32>| v.clone());
        assert_eq!(seen, vec![2, 4, 6, 8, 10]);
        let total = m.synchronized(|v: &mut Vec<u32>| v.iter().sum::<u32>());
        assert_eq!(total, 30);
    }
    assert!(lock.try_lock());
}

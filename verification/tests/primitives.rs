use rcu_sync::atomics;
use rcu_sync::channel::{Channel, OneShotChannel, StateOneShotChannel};
use rcu_sync::locks::{CondVar, Mutex, RwLock};
use rcu_sync::semaphore::Semaphore;
use rcu_sync::spinlock::SpinLock;

#[test]
fn spinlock_guards_value() {
    let mut lock = SpinLock::new(Vec::<i32>::new());
    let guard = lock.lock();
    let mut v = lock.value(&guard).clone();
    v.push(1);
    v.push(2);
    lock.set_value(&guard, v);
    lock.unlock(guard);

    let guard = lock.lock();
    assert_eq!(lock.value(&guard).as_slice(), [1, 2]);
    lock.unlock(guard);
}

#[test]
fn mutex_lock_and_unlock() {
    let mut mutex = Mutex::new(0);
    let guard = mutex.lock();
    mutex.set_value(&guard, 123);
    // no waiter went to sleep, so no wake is owed
    assert!(!mutex.unlock(guard));

    let guard = mutex.lock();
    assert_eq!(*mutex.value(&guard), 123);
    assert!(!mutex.unlock(guard));
}

#[test]
fn mutex_contended_unlock_owes_a_wake() {
    let mut mutex = Mutex::new(0);
    // a waiter that slept takes the lock with the contended marker...
    let guard = mutex.lock_contended();
    // ...so its unlock owes the remaining sleepers a wake
    assert!(mutex.unlock(guard));
}

#[test]
fn condvar_notifies_only_with_waiters() {
    let mut cond = CondVar::new();
    // nobody waits: a notification changes nothing and wakes nobody
    assert!(!cond.notify_one());
    assert!(!cond.notify_all());

    let ticket = cond.begin_wait();
    assert_eq!(ticket, 0);
    // one waiter: the counter ticks and a wake is owed
    assert!(cond.notify_one());
    cond.finish_wait();

    assert!(!cond.notify_one());
}

#[test]
fn rwlock_readers_then_writer() {
    let mut rw = RwLock::new(1);
    let r1 = rw.read();
    let r2 = rw.read();
    assert_eq!(*rw.read_value(&r1), 1);
    assert!(!rw.read_unlock(r2));
    assert!(!rw.read_unlock(r1));

    let w = rw.write();
    rw.set_value(&w, 9);
    assert_eq!(*rw.write_value(&w), 9);
    rw.write_unlock(w);

    let r = rw.read();
    assert_eq!(*rw.read_value(&r), 9);
    assert!(!rw.read_unlock(r));
}

#[test]
fn rwlock_last_reader_wakes_waiting_writer() {
    let mut rw = RwLock::new(0);
    let r = rw.read();
    // a writer announces itself; new readers now hold off
    rw.write_intent();
    // the last departing reader owes the writer a wake
    assert!(rw.read_unlock(r));
    let w = rw.write();
    rw.write_unlock(w);
}

#[test]
fn semaphore_counts_permits() {
    let mut sem = Semaphore::new(32, 3);
    let g1 = sem.acquire();
    let g2 = sem.acquire();
    let g3 = sem.acquire();
    assert_eq!(*sem.value(&g1), 32);
    // all permits are out; a fourth acquire would sleep until a release
    sem.release(g2);
    let g4 = sem.acquire();
    sem.release(g1);
    sem.release(g3);
    sem.release(g4);
}

#[test]
fn channel_delivers_in_order() {
    let mut ch = Channel::new();
    ch.send(1);
    ch.send(2);
    assert_eq!(ch.receive(), 1);
    ch.send(3);
    assert_eq!(ch.receive(), 2);
    assert_eq!(ch.receive(), 3);
}

#[test]
fn one_shot_channel_round_trip() {
    let mut ch = OneShotChannel::new();
    assert!(!ch.is_ready());
    ch.send("hello cats");
    assert!(ch.is_ready());
    assert_eq!(ch.receive(), "hello cats");
    assert!(!ch.is_ready());
}

#[test]
fn state_one_shot_channel_round_trip() {
    let mut ch = StateOneShotChannel::new();
    assert!(!ch.is_ready());
    ch.send("hello world!");
    assert!(ch.is_ready());
    let val = ch.receive();
    assert_eq!(val, "hello world!");
}

#[test]
fn atomic_ops_have_their_stated_effects() {
    let mut x = 5i32;
    atomics::fetch_add(&mut x);
    assert_eq!(x, 15);

    let prev = atomics::fetch_or(&mut x);
    assert_eq!(prev, 15);
    assert_eq!(x, 15 | 10);

    let mut y = 0i32;
    let prev = atomics::fetc_or_manual(&mut y);
    assert_eq!(prev, 0);
    assert_eq!(y, 10);

    let mut z = 1i32;
    atomics::add_ten(&mut z);
    assert_eq!(z, 11);
    let prev = atomics::atomic_add_ten(&mut z);
    assert_eq!(prev, 11);
    assert_eq!(z, 21);

    atomics::store(&mut z);
    assert_eq!(z, 0);
    let mut w = 7i32;
    atomics::atomic_store(&mut w);
    assert_eq!(w, 0);

    let mut v = 42i32;
    assert_eq!(atomics::load(&mut v), 42);
    assert_eq!(atomics::atomic_load(&v), 42);
}

#[test]
fn atomic_adds_wrap_on_overflow() {
    let mut x = i32::MAX;
    atomics::fetch_add(&mut x);
    assert_eq!(x, i32::MIN + 9);

    let mut y = i32::MAX - 3;
    let prev = atomics::atomic_add_ten(&mut y);
    assert_eq!(prev, i32::MAX - 3);
    assert_eq!(y, i32::MIN + 6);
}

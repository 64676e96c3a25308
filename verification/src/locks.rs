//! Futex-based lock primitives, modelled as state machines.
//!
//! The real primitives combine atomic state words with a blocking
//! wait/wake facility keyed on the word.  The state words and their
//! transitions are modelled and verified here; the blocking itself —
//! the futex wait and the wakes — cannot be part of a sequential
//! model, so a transition that would wake sleepers reports that fact
//! in its result and the caller performs the wake.  Steps that would
//! block (locking a taken mutex, reading a write-locked lock) are
//! excluded by precondition: the real thread retries them until they
//! can run, and only the succeeding step is modelled.

use vstd::prelude::*;

verus! {

/// A mutex whose state word is `0` unlocked, `1` locked, and `2`
/// locked with sleeping waiters.
pub struct Mutex<T> {
    state: u32,
    data: T,
}

/// The token a successful lock hands out.
pub struct MutexGuard {}

impl<T> Mutex<T> {
    /// The state word: 0 unlocked, 1 locked, 2 locked and contended.
    pub closed spec fn state(self) -> u32 {
        self.state
    }

    /// The protected value.
    pub closed spec fn stored(self) -> T {
        self.data
    }

    /// The state word never leaves its three values.
    pub open spec fn wf(self) -> bool {
        self.state() <= 2
    }

    /// A new, unlocked mutex around `data`.
    pub fn new(data: T) -> (mutex: Mutex<T>)
        ensures
            mutex.wf(),
            mutex.state() == 0,
            mutex.stored() == data,
    {
        Mutex { state: 0, data }
    }

    /// Acquires the mutex: the compare-and-exchange of the state
    /// word from unlocked to locked.  A locked mutex sends the
    /// caller through the contended path, which spins and then
    /// sleeps until this step can run against an unlocked word.
    pub fn lock(&mut self) -> (guard: MutexGuard)
        requires
            old(self).wf(),
            old(self).state() == 0,
        ensures
            final(self).wf(),
            final(self).state() == 1,
            final(self).stored() == old(self).stored(),
    {
        self.state = 1;
        MutexGuard {}
    }

    /// Acquires the mutex along the contended path: after spinning
    /// and sleeping, the waiter takes the lock with a swap to the
    /// contended state — it cannot know whether other sleepers
    /// remain, so the word must say "contended" and the eventual
    /// unlock must wake one of them.
    pub fn lock_contended(&mut self) -> (guard: MutexGuard)
        requires
            old(self).wf(),
            old(self).state() == 0,
        ensures
            final(self).wf(),
            final(self).state() == 2,
            final(self).stored() == old(self).stored(),
    {
        self.state = 2;
        MutexGuard {}
    }

    /// Reads the protected value; only the guard holder can.
    pub fn value(&self, _guard: &MutexGuard) -> (value: &T)
        requires
            self.state() >= 1,
        ensures
            *value == self.stored(),
    {
        &self.data
    }

    /// Replaces the protected value; only the guard holder can.
    pub fn set_value(&mut self, _guard: &MutexGuard, value: T)
        requires
            old(self).state() >= 1,
        ensures
            final(self).state() == old(self).state(),
            final(self).stored() == value,
    {
        self.data = value;
    }

    /// Releases the mutex, consuming the guard: the swap of the
    /// state word back to unlocked.  Returns whether a sleeping
    /// waiter must be woken, which is so exactly when the word said
    /// the mutex was contended.
    pub fn unlock(&mut self, _guard: MutexGuard) -> (wake_one: bool)
        requires
            old(self).wf(),
            old(self).state() >= 1,
        ensures
            final(self).wf(),
            final(self).state() == 0,
            final(self).stored() == old(self).stored(),
            wake_one == (old(self).state() == 2),
    {
        let was = self.state;
        self.state = 0;
        was == 2
    }
}

/// A readers-writer lock.  The state word holds twice the number of
/// readers, plus one while a writer is waiting, or `u32::MAX` while
/// the writer holds the lock; a second word counts writer wakeups.
pub struct RwLock<T> {
    state: u32,
    write_lock_counter: u32,
    data: T,
}

/// The token handed to each reader.
pub struct ReadGuard {}

/// The token handed to the writer.
pub struct WriteGuard {}

impl<T> RwLock<T> {
    /// The state word.
    pub closed spec fn state(self) -> u32 {
        self.state
    }

    /// The writer-wakeup counter.
    pub closed spec fn write_counter(self) -> u32 {
        self.write_lock_counter
    }

    /// The protected value.
    pub closed spec fn stored(self) -> T {
        self.data
    }

    /// The state word is the writer-held marker or small enough that
    /// a reader can still be counted without colliding with it.
    pub open spec fn wf(self) -> bool {
        self.state() == u32::MAX || self.state() < u32::MAX - 2
    }

    /// A new, unheld lock around `value`.
    pub fn new(value: T) -> (lock: RwLock<T>)
        ensures
            lock.wf(),
            lock.state() == 0,
            lock.write_counter() == 0,
            lock.stored() == value,
    {
        RwLock { state: 0, write_lock_counter: 0, data: value }
    }

    /// Takes a read lock: the compare-and-exchange that raises the
    /// reader count by one.  It runs only while no writer holds or
    /// awaits the lock — an odd or writer-held word makes the real
    /// reader wait — and while the count can still grow, the bound
    /// the implementation's "too many readers" check enforces.
    pub fn read(&mut self) -> (guard: ReadGuard)
        requires
            old(self).wf(),
            old(self).state() % 2 == 0,
            old(self).state() < u32::MAX - 4,
        ensures
            final(self).wf(),
            final(self).state() == old(self).state() + 2,
            final(self).write_counter() == old(self).write_counter(),
            final(self).stored() == old(self).stored(),
    {
        self.state = self.state + 2;
        ReadGuard {}
    }

    /// Takes the write lock: the compare-and-exchange from a word
    /// with no readers to the writer-held marker.  With readers
    /// present the real writer first marks itself waiting and then
    /// sleeps; only the final, succeeding exchange is modelled.
    pub fn write(&mut self) -> (guard: WriteGuard)
        requires
            old(self).wf(),
            old(self).state() <= 1,
        ensures
            final(self).wf(),
            final(self).state() == u32::MAX,
            final(self).write_counter() == old(self).write_counter(),
            final(self).stored() == old(self).stored(),
    {
        self.state = u32::MAX;
        WriteGuard {}
    }

    /// Marks a writer as waiting: the exchange that makes the state
    /// word odd, so that new readers hold off while the writer
    /// sleeps on its counter.
    pub fn write_intent(&mut self)
        requires
            old(self).wf(),
            old(self).state() % 2 == 0,
            old(self).state() < u32::MAX - 4,
        ensures
            final(self).wf(),
            final(self).state() == old(self).state() + 1,
            final(self).write_counter() == old(self).write_counter(),
            final(self).stored() == old(self).stored(),
    {
        self.state = self.state + 1;
    }

    /// Reads the protected value through a read guard, while the
    /// reader count is positive.
    pub fn read_value(&self, _guard: &ReadGuard) -> (value: &T)
        requires
            self.state() != u32::MAX,
            self.state() >= 2,
        ensures
            *value == self.stored(),
    {
        &self.data
    }

    /// Reads the protected value through the write guard.
    pub fn write_value(&self, _guard: &WriteGuard) -> (value: &T)
        requires
            self.state() == u32::MAX,
        ensures
            *value == self.stored(),
    {
        &self.data
    }

    /// Replaces the protected value; only the writer can.
    pub fn set_value(&mut self, _guard: &WriteGuard, value: T)
        requires
            old(self).state() == u32::MAX,
        ensures
            final(self).state() == old(self).state(),
            final(self).write_counter() == old(self).write_counter(),
            final(self).stored() == value,
    {
        self.data = value;
    }

    /// Drops a read lock: the subtraction of one reader.  When the
    /// departing reader was the last and a writer is waiting — the
    /// word read exactly 3 — the writer's counter ticks and the
    /// caller must wake one sleeper on it.
    pub fn read_unlock(&mut self, _guard: ReadGuard) -> (wake_writer: bool)
        requires
            old(self).wf(),
            old(self).state() != u32::MAX,
            old(self).state() >= 2,
        ensures
            final(self).wf(),
            final(self).state() == old(self).state() - 2,
            wake_writer == (old(self).state() == 3),
            final(self).write_counter() == if old(self).state() == 3 {
                vstd::wrapping::u32_specs::wrapping_add(old(self).write_counter(), 1)
            } else {
                old(self).write_counter()
            },
            final(self).stored() == old(self).stored(),
    {
        let was = self.state;
        self.state = was - 2;
        if was == 3 {
            self.write_lock_counter = self.write_lock_counter.wrapping_add(1);
            true
        } else {
            false
        }
    }

    /// Drops the write lock: the word returns to zero and the
    /// writer's counter ticks.  The caller must then wake one
    /// sleeper on the counter and every sleeper on the word.
    pub fn write_unlock(&mut self, _guard: WriteGuard)
        requires
            old(self).wf(),
            old(self).state() == u32::MAX,
        ensures
            final(self).wf(),
            final(self).state() == 0,
            final(self).write_counter() == vstd::wrapping::u32_specs::wrapping_add(
                old(self).write_counter(),
                1,
            ),
            final(self).stored() == old(self).stored(),
    {
        self.state = 0;
        self.write_lock_counter = self.write_lock_counter.wrapping_add(1);
    }
}

/// A condition variable: a wakeup counter the sleepers key their
/// futex wait on, and a count of threads currently waiting.
pub struct CondVar {
    counter: u32,
    waiters: usize,
}

impl CondVar {
    /// The wakeup counter.
    pub closed spec fn counter(self) -> u32 {
        self.counter
    }

    /// How many threads are between `begin_wait` and `finish_wait`.
    pub closed spec fn waiters(self) -> usize {
        self.waiters
    }

    /// A fresh condition variable.
    pub fn new() -> (cond: CondVar)
        ensures
            cond.counter() == 0,
            cond.waiters() == 0,
    {
        CondVar { counter: 0, waiters: 0 }
    }

    /// Notifies one waiter: when anybody is waiting, the counter
    /// ticks and the caller must wake one sleeper on it; with nobody
    /// waiting, nothing changes.
    pub fn notify_one(&mut self) -> (wake_one: bool)
        ensures
            wake_one == (old(self).waiters() > 0),
            final(self).waiters() == old(self).waiters(),
            final(self).counter() == if old(self).waiters() > 0 {
                vstd::wrapping::u32_specs::wrapping_add(old(self).counter(), 1)
            } else {
                old(self).counter()
            },
    {
        if self.waiters > 0 {
            self.counter = self.counter.wrapping_add(1);
            true
        } else {
            false
        }
    }

    /// Notifies all waiters: the same counter tick, but the caller
    /// must wake every sleeper.
    pub fn notify_all(&mut self) -> (wake_all: bool)
        ensures
            wake_all == (old(self).waiters() > 0),
            final(self).waiters() == old(self).waiters(),
            final(self).counter() == if old(self).waiters() > 0 {
                vstd::wrapping::u32_specs::wrapping_add(old(self).counter(), 1)
            } else {
                old(self).counter()
            },
    {
        if self.waiters > 0 {
            self.counter = self.counter.wrapping_add(1);
            true
        } else {
            false
        }
    }

    /// The bookkeeping a wait does before sleeping: the thread
    /// counts itself as a waiter and takes a ticket — the counter
    /// value whose change it will sleep on after releasing its
    /// mutex.
    pub fn begin_wait(&mut self) -> (ticket: u32)
        requires
            old(self).waiters() < usize::MAX,
        ensures
            ticket == old(self).counter(),
            final(self).counter() == old(self).counter(),
            final(self).waiters() == old(self).waiters() + 1,
    {
        self.waiters = self.waiters + 1;
        self.counter
    }

    /// The bookkeeping after the sleep ends: the thread is no longer
    /// a waiter and goes back to relock its mutex.
    pub fn finish_wait(&mut self)
        requires
            old(self).waiters() > 0,
        ensures
            final(self).counter() == old(self).counter(),
            final(self).waiters() == old(self).waiters() - 1,
    {
        self.waiters = self.waiters - 1;
    }
}

} // verus!

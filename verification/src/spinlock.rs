//! A test-and-set spin lock, modelled as a state machine.
//!
//! The real lock spins on an atomic flag; its successful swap from
//! `false` to `true` is the acquisition step modelled here.  A caller
//! that would find the lock taken spins until it is free, so the
//! acquiring step itself only ever runs against a free lock — which
//! is what `lock`'s precondition states.

use vstd::prelude::*;

verus! {

/// The lock: an atomic flag and the value it protects.
pub struct SpinLock<T> {
    locked: bool,
    value: T,
}

/// The token a successful acquisition hands out; holding it grants
/// access to the protected value until `unlock` takes it back.
pub struct Guard {}

impl<T> SpinLock<T> {
    /// Whether the lock is currently held.
    pub closed spec fn is_locked(self) -> bool {
        self.locked
    }

    /// The protected value.
    pub closed spec fn stored(self) -> T {
        self.value
    }

    /// A new, unlocked lock around `value`.
    pub fn new(value: T) -> (lock: SpinLock<T>)
        ensures
            !lock.is_locked(),
            lock.stored() == value,
    {
        SpinLock { locked: false, value }
    }

    /// Acquires the lock: the swap of the flag from free to taken.
    /// A taken lock makes the caller spin, so the acquiring step
    /// finds the lock free.
    pub fn lock(&mut self) -> (guard: Guard)
        requires
            !old(self).is_locked(),
        ensures
            final(self).is_locked(),
            final(self).stored() == old(self).stored(),
    {
        self.locked = true;
        Guard {}
    }

    /// Reads the protected value; only the guard holder can.
    pub fn value(&self, _guard: &Guard) -> (value: &T)
        requires
            self.is_locked(),
        ensures
            *value == self.stored(),
    {
        &self.value
    }

    /// Replaces the protected value; only the guard holder can.
    pub fn set_value(&mut self, _guard: &Guard, value: T)
        requires
            old(self).is_locked(),
        ensures
            final(self).is_locked(),
            final(self).stored() == value,
    {
        self.value = value;
    }

    /// Releases the lock, consuming the guard: the release store of
    /// the flag that a guard's drop performs.
    pub fn unlock(&mut self, _guard: Guard)
        requires
            old(self).is_locked(),
        ensures
            !final(self).is_locked(),
            final(self).stored() == old(self).stored(),
    {
        self.locked = false;
    }
}

} // verus!

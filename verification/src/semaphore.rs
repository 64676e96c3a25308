//! A counting semaphore over a shared value, modelled as a state
//! machine on its counter.
//!
//! The real semaphore sleeps on the counter word while it reads
//! zero; the successful compare-and-exchange that takes a permit is
//! the step modelled by `acquire`, so it always finds a permit free.
//! Releasing a permit must be followed by one wake on the counter.

use vstd::prelude::*;

verus! {

/// The semaphore: the number of permits still free, and the value
/// the permit holders share.
pub struct Semaphore<T> {
    counter: u32,
    data: T,
}

/// The token one acquired permit hands out.
pub struct SemaphoreGuard {}

impl<T> Semaphore<T> {
    /// How many permits are still free.
    pub closed spec fn counter(self) -> u32 {
        self.counter
    }

    /// The shared value.
    pub closed spec fn stored(self) -> T {
        self.data
    }

    /// How many permits are still free, as the acquire loop reads it.
    pub fn permits(&self) -> (n: u32)
        ensures
            n == self.counter(),
    {
        self.counter
    }

    /// A new semaphore with `num_threads` permits around `value`.
    pub fn new(value: T, num_threads: u32) -> (semaphore: Semaphore<T>)
        ensures
            semaphore.counter() == num_threads,
            semaphore.stored() == value,
    {
        Semaphore { counter: num_threads, data: value }
    }

    /// Takes a permit: the compare-and-exchange that lowers the
    /// counter.  At zero the real caller sleeps until a release
    /// frees a permit, so the acquiring step finds one.
    pub fn acquire(&mut self) -> (guard: SemaphoreGuard)
        requires
            old(self).counter() > 0,
        ensures
            final(self).counter() == old(self).counter() - 1,
            final(self).stored() == old(self).stored(),
    {
        self.counter = self.counter - 1;
        SemaphoreGuard {}
    }

    /// Reads the shared value through a held permit.
    pub fn value(&self, _guard: &SemaphoreGuard) -> (value: &T)
        ensures
            *value == self.stored(),
    {
        &self.data
    }

    /// Returns a permit, consuming the guard; the caller must then
    /// wake one sleeper on the counter.  Permits never outnumber
    /// what `new` handed out, which keeps the counter in range.
    pub fn release(&mut self, _guard: SemaphoreGuard)
        requires
            old(self).counter() < u32::MAX,
        ensures
            final(self).counter() == old(self).counter() + 1,
            final(self).stored() == old(self).stored(),
    {
        self.counter = self.counter + 1;
    }
}

} // verus!

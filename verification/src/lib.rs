//! Verified models of low-level synchronization primitives.
//!
//! The centrepiece is a hazard-pointer read-copy-update cell (`rcu`):
//! readers publish the address they are about to dereference, writers
//! swap in a new value and retire the old one, and a scanner reclaims
//! retired values that no published hazard still protects.  Ownership
//! of values is modelled by an arena, so the safety argument — no
//! protected value is ever reclaimed — is a proved invariant rather
//! than a comment.
//!
//! Around it stand verified models of the simpler primitives such a
//! core lives with: a spin lock, a futex-style mutex,
//! a reader-writer lock, a condition variable, a semaphore, and
//! one-shot channels.  Each is modelled as a state machine over plain
//! values: every shared atomic location is represented by the value it
//! holds, and every atomic operation by its effect at the moment it
//! takes effect.  The blocking that a real implementation does between
//! state transitions is left to the (unverified) binary around the
//! library.

pub mod atomics;
pub mod channel;
pub mod locks;
pub mod rcu;
pub mod semaphore;
pub mod spinlock;

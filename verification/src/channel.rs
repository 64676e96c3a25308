//! Channels, modelled as state machines over their message storage.
//!
//! The queue-backed channel keeps its messages in order; the
//! one-shot channels hold at most one message and track it with the
//! same flags the real implementations keep in atomics.  Where the
//! real code stores the message in uninitialized memory guarded by
//! those flags, the model stores an `Option` and proves the flags
//! never let a message be read before it is written — the property
//! the real implementation maintains by hand.

use vstd::prelude::*;

verus! {

/// A multi-message channel: a queue under a coarse lock, with a
/// condition variable to block an empty receive.  Receiving from an
/// empty queue blocks until a send arrives, so the receive step
/// itself always finds a message; each send must be followed by a
/// notify-one so a blocked receiver wakes.
pub struct Channel<T> {
    queue: Vec<T>,
}

impl<T> View for Channel<T> {
    type V = Seq<T>;

    closed spec fn view(&self) -> Seq<T> {
        self.queue@
    }
}

impl<T> Channel<T> {
    /// A new, empty channel.
    pub fn new() -> (channel: Channel<T>)
        ensures
            channel@ =~= Seq::<T>::empty(),
    {
        Channel { queue: Vec::new() }
    }

    /// How many messages are queued: what a receiver checks before
    /// deciding to take one or to wait.
    pub fn len(&self) -> (n: usize)
        ensures
            n == self@.len(),
    {
        self.queue.len()
    }

    /// Appends a message to the back of the queue.
    pub fn send(&mut self, value: T)
        ensures
            final(self)@ == old(self)@.push(value),
    {
        self.queue.push(value);
    }

    /// Takes the message at the front of the queue.  An empty queue
    /// makes the real receiver sleep on the condition variable until
    /// this step can run.
    pub fn receive(&mut self) -> (value: T)
        requires
            old(self)@.len() > 0,
        ensures
            value == old(self)@[0],
            final(self)@ == old(self)@.subrange(1, old(self)@.len() as int),
    {
        self.queue.remove(0)
    }
}

/// A one-shot channel: one message, sent at most once and received
/// at most once.  `in_use` remembers that a send has started and
/// `ready` that the message may be taken.
pub struct OneShotChannel<T> {
    message: Option<T>,
    ready: bool,
    in_use: bool,
}

impl<T> OneShotChannel<T> {
    /// Whether the message is there to be taken.
    pub closed spec fn spec_ready(self) -> bool {
        self.ready
    }

    /// Whether a send has already claimed the channel.
    pub closed spec fn spec_in_use(self) -> bool {
        self.in_use
    }

    /// The stored message.
    pub closed spec fn spec_message(self) -> Option<T> {
        self.message
    }

    /// The flags never promise a message that is not there.
    pub open spec fn wf(self) -> bool {
        self.spec_ready() ==> self.spec_message() is Some
    }

    /// A new, empty channel.
    pub fn new() -> (channel: OneShotChannel<T>)
        ensures
            channel.wf(),
            !channel.spec_ready(),
            !channel.spec_in_use(),
            channel.spec_message() is None,
    {
        OneShotChannel { message: None, ready: false, in_use: false }
    }

    /// Stores the one message and publishes it.  A second send finds
    /// the channel claimed and panics in the real implementation, so
    /// it is excluded here.
    pub fn send(&mut self, value: T)
        requires
            !old(self).spec_in_use(),
        ensures
            final(self).wf(),
            final(self).spec_in_use(),
            final(self).spec_ready(),
            final(self).spec_message() == Some(value),
    {
        self.in_use = true;
        self.message = Some(value);
        self.ready = true;
    }

    /// Whether a receive would find the message.
    pub fn is_ready(&self) -> (ready: bool)
        ensures
            ready == self.spec_ready(),
    {
        self.ready
    }

    /// Takes the message.  Receiving before the message is ready
    /// panics in the real implementation, so it is excluded here;
    /// taking it clears `ready`, and a second receive is excluded
    /// the same way.
    pub fn receive(&mut self) -> (value: T)
        requires
            old(self).wf(),
            old(self).spec_ready(),
        ensures
            final(self).wf(),
            !final(self).spec_ready(),
            final(self).spec_in_use() == old(self).spec_in_use(),
            final(self).spec_message() is None,
            Some(value) == old(self).spec_message(),
    {
        self.ready = false;
        self.message.take().unwrap()
    }
}

/// The channel claimed by no send so far.
pub const EMPTY: u8 = 0;

/// A send is writing the message.
pub const WRITING: u8 = 1;

/// The message is there to be taken.
pub const READY: u8 = 2;

/// A receive is reading the message.  The implementation gives this
/// state the same value as `READY`, so a consumed channel still
/// reports itself ready; the receive contract therefore also demands
/// that the message is still present.
pub const READING: u8 = 2;

/// A one-shot channel that keeps its whole lifecycle in one state
/// byte instead of two flags.
pub struct StateOneShotChannel<T> {
    message: Option<T>,
    state: u8,
}

impl<T> StateOneShotChannel<T> {
    /// The lifecycle state byte.
    pub closed spec fn spec_state(self) -> u8 {
        self.state
    }

    /// The stored message.
    pub closed spec fn spec_message(self) -> Option<T> {
        self.message
    }

    /// A new, empty channel.
    pub fn new() -> (channel: StateOneShotChannel<T>)
        ensures
            channel.spec_state() == EMPTY,
            channel.spec_message() is None,
    {
        StateOneShotChannel { message: None, state: EMPTY }
    }

    /// Stores the one message and moves the channel to `READY`.  A
    /// second send fails the state exchange and panics in the real
    /// implementation, so only an `EMPTY` channel may send.
    pub fn send(&mut self, value: T)
        requires
            old(self).spec_state() == EMPTY,
        ensures
            final(self).spec_state() == READY,
            final(self).spec_message() == Some(value),
    {
        self.state = WRITING;
        self.message = Some(value);
        self.state = READY;
    }

    /// Whether the state byte reads `READY`.
    pub fn is_ready(&self) -> (ready: bool)
        ensures
            ready == (self.spec_state() == READY),
    {
        self.state == READY
    }

    /// Takes the message of a `READY` channel that still holds one.
    /// Because `READING` and `READY` share a value, the state byte
    /// alone cannot rule out a second receive — the demand that the
    /// message is still present does.
    pub fn receive(&mut self) -> (value: T)
        requires
            old(self).spec_state() == READY,
            old(self).spec_message() is Some,
        ensures
            final(self).spec_state() == READING,
            final(self).spec_message() is None,
            Some(value) == old(self).spec_message(),
    {
        self.state = READING;
        self.message.take().unwrap()
    }
}

} // verus!

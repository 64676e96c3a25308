//! A read-copy-update cell with hazard-pointer reclamation.
//!
//! Many readers observe a current value without blocking while a
//! writer replaces it; the superseded value is not destroyed until no
//! reader can still be touching it.  A reader publishes the address it
//! is about to dereference in its thread's hazard slot and re-checks
//! that the address is still current before trusting it; a writer
//! swaps in a new value and retires the old address; once enough
//! addresses have been retired, a scanner frees every retired address
//! that no hazard slot still names.
//!
//! Ownership of values is modelled by an arena: an address is an index
//! into the arena, a live value is a `Some` entry, and freeing is the
//! step from `Some` to `None`.  The state visible in contracts is the
//! [`RcuModel`] view; every operation's postcondition gives the new
//! view exactly, and the safety and liveness properties of the
//! protocol are proved as public lemmas over that view.
//!
//! Thread identity is explicit: the single-threaded model passes a
//! `tid` where a real implementation would consult thread-local
//! storage.  Each operation describes one linearization step of the
//! protocol.

use vstd::prelude::*;

verus! {

/// Number of retired addresses at which a write triggers an inline
/// scan of the hazard slots.
pub const RETIRE_THRESHOLD: usize = 10;

/// One thread's hazard slot: the address the thread may be about to
/// dereference, or `None` when the thread holds no guard.
pub struct HazardRecord {
    /// Identity of the thread that owns the slot.
    pub tid: usize,
    /// The published address, or `None` for a cleared slot.
    pub hazard: Option<usize>,
}

/// A token returned by [`Rcu::read`]: the reader's claim on one
/// address.  While the guard's thread still has `addr` published in
/// its hazard slot, the scanner will not free `addr`.
pub struct ReadGuard {
    /// The address the guard protects.
    pub addr: usize,
    /// The thread the guard belongs to.
    pub tid: usize,
}

/// The mathematical state of an [`Rcu`] cell.
#[verifier::ext_equal]
pub struct RcuModel<T> {
    /// The arena: address `a` holds `Some(value)` while allocated,
    /// `None` once freed.
    pub arena: Seq<Option<T>>,
    /// The address of the current value.
    pub current: usize,
    /// Every registered thread's hazard slot.
    pub registry: Seq<HazardRecord>,
    /// Addresses superseded by writes and awaiting reclamation.
    pub retired: Seq<usize>,
}

impl<T> RcuModel<T> {
    /// Address `a` names a value that has not been freed.
    pub open spec fn allocated(self, a: usize) -> bool {
        a < self.arena.len() && self.arena[a as int] is Some
    }

    /// The value stored at address `a`.
    pub open spec fn value_at(self, a: usize) -> T
        recommends
            self.allocated(a),
    {
        self.arena[a as int].unwrap()
    }

    /// The current value of the cell.
    pub open spec fn current_value(self) -> T {
        self.value_at(self.current)
    }

    /// Thread `tid` has a slot in the registry.
    pub open spec fn registered(self, tid: usize) -> bool {
        exists|i: int| 0 <= i < self.registry.len() && #[trigger] self.registry[i].tid == tid
    }

    /// The position of thread `tid`'s slot in the registry.
    pub open spec fn slot_index(self, tid: usize) -> int {
        choose|i: int| 0 <= i < self.registry.len() && #[trigger] self.registry[i].tid == tid
    }

    /// What thread `tid`'s hazard slot holds; `None` as well for a
    /// thread that never registered.
    pub open spec fn hazard_of(self, tid: usize) -> Option<usize> {
        if self.registered(tid) {
            self.registry[self.slot_index(tid)].hazard
        } else {
            None
        }
    }

    /// Some hazard slot names address `a`: the scanner must spare it.
    pub open spec fn protected(self, a: usize) -> bool {
        exists|i: int|
            0 <= i < self.registry.len() && #[trigger] self.registry[i].hazard == Some(a)
    }

    /// Every hazard slot is clear: no reader holds a claim.
    pub open spec fn no_hazards(self) -> bool {
        forall|i: int| 0 <= i < self.registry.len() ==> #[trigger] self.registry[i].hazard is None
    }

    /// The guard's thread still has the guard's address published.
    pub open spec fn guard_valid(self, g: ReadGuard) -> bool {
        self.hazard_of(g.tid) == Some(g.addr)
    }

    /// How many values are live in the arena.
    pub open spec fn live_count(self) -> nat {
        self.arena.filter(|o: Option<T>| o is Some).len()
    }

    /// The state after thread `tid` publishes address `addr` in its
    /// hazard slot, registering the slot first if the thread never
    /// held one.
    pub open spec fn publish_at(self, tid: usize, addr: usize) -> RcuModel<T> {
        if self.registered(tid) {
            RcuModel {
                registry: self.registry.update(
                    self.slot_index(tid),
                    HazardRecord { tid, hazard: Some(addr) },
                ),
                ..self
            }
        } else {
            RcuModel {
                registry: self.registry.push(HazardRecord { tid, hazard: Some(addr) }),
                ..self
            }
        }
    }

    /// The state after thread `tid` publishes the current address:
    /// the step a read performs.
    pub open spec fn publish_spec(self, tid: usize) -> RcuModel<T> {
        self.publish_at(tid, self.current)
    }

    /// The state after thread `tid` clears its hazard slot: the step
    /// a guard's release performs.
    pub open spec fn clear_spec(self, tid: usize) -> RcuModel<T> {
        if self.registered(tid) {
            RcuModel {
                registry: self.registry.update(
                    self.slot_index(tid),
                    HazardRecord { tid, hazard: None },
                ),
                ..self
            }
        } else {
            self
        }
    }

    /// Whether a scan started in this state frees address `a`:
    /// retired and named by no hazard slot.
    pub open spec fn freed_by_scan(self, a: usize) -> bool {
        self.retired.contains(a) && !self.protected(a)
    }

    /// The state after a scan: every retired address absent from the
    /// hazard snapshot is freed and leaves the retired list; retired
    /// addresses still protected stay for a future scan.
    pub open spec fn scan_spec(self) -> RcuModel<T> {
        RcuModel {
            arena: Seq::new(
                self.arena.len(),
                |i: int|
                    if self.freed_by_scan(i as usize) {
                        None
                    } else {
                        self.arena[i]
                    },
            ),
            retired: self.retired.filter(|a: usize| self.protected(a)),
            ..self
        }
    }

    /// The state after address `a` is retired: it joins the retired
    /// list, and a scan runs inline once the list reaches the
    /// threshold.
    pub open spec fn retire_spec(self, a: usize) -> RcuModel<T> {
        let pushed = RcuModel { retired: self.retired.push(a), ..self };
        if pushed.retired.len() >= RETIRE_THRESHOLD {
            pushed.scan_spec()
        } else {
            pushed
        }
    }

    /// The state after a write: the new value is allocated at a fresh
    /// address, becomes current, and the superseded address is
    /// retired.
    pub open spec fn write_spec(self, value: T) -> RcuModel<T> {
        let fresh = self.arena.len() as usize;
        let swapped = RcuModel { arena: self.arena.push(Some(value)), current: fresh, ..self };
        swapped.retire_spec(self.current)
    }

    /// The protocol invariant.
    ///
    /// The current address is allocated; an address is allocated
    /// exactly while it is current or retired; the retired list never
    /// holds the current address; each thread has at most one slot;
    /// and every published hazard names an allocated address — the
    /// fact that makes dereferencing through a guard safe.
    pub open spec fn wf(self) -> bool {
        &&& self.arena.len() <= usize::MAX
        &&& self.current < self.arena.len()
        &&& forall|a: usize|
            a < self.arena.len() ==> ((#[trigger] self.arena[a as int]) is Some <==> (a
                == self.current || self.retired.contains(a)))
        &&& !self.retired.contains(self.current)
        &&& forall|i: int|
            0 <= i < self.retired.len() ==> (#[trigger] self.retired[i]) < self.arena.len()
        &&& forall|i: int, j: int|
            0 <= i < j < self.registry.len() ==> (#[trigger] self.registry[i].tid) != (
            #[trigger] self.registry[j].tid)
        &&& forall|i: int|
            0 <= i < self.registry.len() && (#[trigger] self.registry[i].hazard) is Some
                ==> self.allocated(self.registry[i].hazard.unwrap())
    }

    /// The invariant at the instant address `addr` is being retired:
    /// a writer has swapped `addr` out, so it is allocated but
    /// neither current nor yet in the retired list — the one orphan
    /// `wf` forbids — and everything else is as `wf` demands.
    /// Retiring `addr` restores `wf`.
    pub open spec fn wf_retiring(self, addr: usize) -> bool {
        &&& self.arena.len() <= usize::MAX
        &&& self.current < self.arena.len()
        &&& self.allocated(addr)
        &&& addr != self.current
        &&& !self.retired.contains(addr)
        &&& forall|a: usize|
            a < self.arena.len() ==> ((#[trigger] self.arena[a as int]) is Some <==> (a
                == self.current || self.retired.contains(a) || a == addr))
        &&& !self.retired.contains(self.current)
        &&& forall|i: int|
            0 <= i < self.retired.len() ==> (#[trigger] self.retired[i]) < self.arena.len()
        &&& forall|i: int, j: int|
            0 <= i < j < self.registry.len() ==> (#[trigger] self.registry[i].tid) != (
            #[trigger] self.registry[j].tid)
        &&& forall|i: int|
            0 <= i < self.registry.len() && (#[trigger] self.registry[i].hazard) is Some
                ==> self.allocated(self.registry[i].hazard.unwrap())
    }
}

impl<T> RcuModel<T> {
    /// Threads own at most one slot, so any slot that names `tid` is
    /// the one `slot_index` picks.
    pub proof fn lemma_slot_index(self, tid: usize, i: int)
        requires
            self.wf(),
            0 <= i < self.registry.len(),
            self.registry[i].tid == tid,
        ensures
            self.registered(tid),
            self.slot_index(tid) == i,
            self.hazard_of(tid) == self.registry[i].hazard,
    {
        assert(self.registered(tid));
        let j = self.slot_index(tid);
        assert(0 <= j < self.registry.len() && self.registry[j].tid == tid);
        if i < j {
            assert(self.registry[i].tid != self.registry[j].tid);
        }
        if j < i {
            assert(self.registry[j].tid != self.registry[i].tid);
        }
    }

    /// A published hazard names an allocated — never freed — address.
    pub proof fn lemma_hazard_allocated(self, tid: usize)
        requires
            self.wf(),
            self.hazard_of(tid) is Some,
        ensures
            self.allocated(self.hazard_of(tid).unwrap()),
            self.protected(self.hazard_of(tid).unwrap()),
    {
        let j = self.slot_index(tid);
        assert(0 <= j < self.registry.len() && self.registry[j].tid == tid);
        assert(self.registry[j].hazard == Some(self.hazard_of(tid).unwrap()));
    }

    /// Publishing an allocated address keeps the invariant and
    /// touches no slot but the publisher's.
    pub proof fn lemma_publish_at(self, tid: usize, addr: usize)
        requires
            self.wf(),
            self.allocated(addr),
        ensures
            self.publish_at(tid, addr).wf(),
            self.publish_at(tid, addr).arena == self.arena,
            self.publish_at(tid, addr).current == self.current,
            self.publish_at(tid, addr).retired == self.retired,
            self.publish_at(tid, addr).hazard_of(tid) == Some(addr),
            forall|t2: usize|
                t2 != tid ==> #[trigger] self.publish_at(tid, addr).hazard_of(t2)
                    == self.hazard_of(t2),
    {
        let s = self.publish_at(tid, addr);
        if self.registered(tid) {
            let i = self.slot_index(tid);
            assert(0 <= i < self.registry.len() && self.registry[i].tid == tid);
            assert(forall|p: int|
                0 <= p < s.registry.len() ==> #[trigger] s.registry[p].tid
                    == self.registry[p].tid);
            assert(s.wf());
            s.lemma_slot_index(tid, i);
            assert forall|t2: usize| t2 != tid implies #[trigger] s.hazard_of(t2) == self.hazard_of(
                t2,
            ) by {
                if self.registered(t2) {
                    let j = self.slot_index(t2);
                    assert(0 <= j < self.registry.len() && self.registry[j].tid == t2);
                    assert(j != i);
                    s.lemma_slot_index(t2, j);
                } else {
                    assert(!s.registered(t2));
                }
            }
        } else {
            let n = self.registry.len() as int;
            assert(s.registry[n].tid == tid);
            assert forall|p: int, q: int| 0 <= p < q < s.registry.len() implies (
            #[trigger] s.registry[p].tid) != (#[trigger] s.registry[q].tid) by {
                if q < n {
                    assert(s.registry[p].tid == self.registry[p].tid);
                    assert(s.registry[q].tid == self.registry[q].tid);
                } else {
                    assert(self.registry[p].tid != tid);
                }
            }
            assert(s.wf());
            s.lemma_slot_index(tid, n);
            assert forall|t2: usize| t2 != tid implies #[trigger] s.hazard_of(t2) == self.hazard_of(
                t2,
            ) by {
                if self.registered(t2) {
                    let j = self.slot_index(t2);
                    assert(0 <= j < self.registry.len() && self.registry[j].tid == t2);
                    s.lemma_slot_index(t2, j);
                } else {
                    assert(!s.registered(t2));
                }
            }
        }
    }

    /// Clearing a slot keeps the invariant and touches no slot but
    /// the clearing thread's.
    pub proof fn lemma_clear(self, tid: usize)
        requires
            self.wf(),
        ensures
            self.clear_spec(tid).wf(),
            self.clear_spec(tid).arena == self.arena,
            self.clear_spec(tid).current == self.current,
            self.clear_spec(tid).retired == self.retired,
            self.clear_spec(tid).hazard_of(tid) == None::<usize>,
            forall|t2: usize|
                t2 != tid ==> #[trigger] self.clear_spec(tid).hazard_of(t2) == self.hazard_of(t2),
    {
        let s = self.clear_spec(tid);
        if self.registered(tid) {
            let i = self.slot_index(tid);
            assert(0 <= i < self.registry.len() && self.registry[i].tid == tid);
            assert(forall|p: int|
                0 <= p < s.registry.len() ==> #[trigger] s.registry[p].tid
                    == self.registry[p].tid);
            assert(s.wf());
            s.lemma_slot_index(tid, i);
            assert forall|t2: usize| t2 != tid implies #[trigger] s.hazard_of(t2) == self.hazard_of(
                t2,
            ) by {
                if self.registered(t2) {
                    let j = self.slot_index(t2);
                    assert(0 <= j < self.registry.len() && self.registry[j].tid == t2);
                    assert(j != i);
                    s.lemma_slot_index(t2, j);
                } else {
                    assert(!s.registered(t2));
                }
            }
        }
    }

    /// A scan frees exactly the retired addresses that no hazard slot
    /// names, keeps every protected address intact, and keeps the
    /// invariant.
    pub proof fn lemma_scan(self)
        requires
            self.wf(),
        ensures
            self.scan_spec().wf(),
            self.scan_spec().registry == self.registry,
            self.scan_spec().current == self.current,
            self.scan_spec().arena.len() == self.arena.len(),
            self.scan_spec().arena[self.current as int] == self.arena[self.current as int],
            forall|a: usize|
                a < self.arena.len() && !self.freed_by_scan(a)
                    ==> #[trigger] self.scan_spec().arena[a as int] == self.arena[a as int],
            forall|a: usize|
                a < self.arena.len() && self.freed_by_scan(a)
                    ==> #[trigger] self.scan_spec().arena[a as int] is None,
            forall|a: usize|
                #[trigger] self.scan_spec().retired.contains(a) <==> (self.retired.contains(a)
                    && self.protected(a)),
            self.scan_spec().retired.len() <= self.retired.len(),
    {
        let s = self.scan_spec();
        let pred = |a: usize| self.protected(a);
        assert forall|a: usize| #[trigger] s.retired.contains(a) <==> (self.retired.contains(a)
            && self.protected(a)) by {
            lemma_filter_contains_iff(self.retired, pred, a);
        }
        self.retired.lemma_filter_len(pred);
        assert forall|i: int| 0 <= i < s.retired.len() implies (#[trigger] s.retired[i])
            < s.arena.len() by {
            assert(s.retired.contains(s.retired[i]));
        }
        assert forall|a: usize| a < s.arena.len() implies ((#[trigger] s.arena[a as int]) is Some
            <==> (a == s.current || s.retired.contains(a))) by {
            if a == self.current {
                assert(!self.freed_by_scan(a));
            } else if self.freed_by_scan(a) {
                assert(!s.retired.contains(a));
            } else {
                assert(s.arena[a as int] == self.arena[a as int]);
                if self.retired.contains(a) {
                    assert(self.protected(a));
                    assert(s.retired.contains(a));
                }
                if s.retired.contains(a) {
                    assert(self.retired.contains(a));
                }
            }
        }
        assert forall|i: int|
            0 <= i < s.registry.len() && (#[trigger] s.registry[i].hazard) is Some implies s.allocated(
            s.registry[i].hazard.unwrap(),
        ) by {
            let h = s.registry[i].hazard.unwrap();
            assert(self.allocated(h));
            assert(self.protected(h));
            assert(!self.freed_by_scan(h));
        }
        assert(s.wf());
    }

    /// Retiring the orphaned address restores the invariant; the
    /// current value and every protected address survive, whether or
    /// not the inline scan runs.
    pub proof fn lemma_retire(self, a: usize)
        requires
            self.wf_retiring(a),
        ensures
            (RcuModel { retired: self.retired.push(a), ..self }).wf(),
            self.retire_spec(a).wf(),
            self.retire_spec(a).registry == self.registry,
            self.retire_spec(a).current == self.current,
            self.retire_spec(a).arena.len() == self.arena.len(),
            self.retire_spec(a).arena[self.current as int] == self.arena[self.current as int],
            forall|x: usize|
                x < self.arena.len() && self.protected(x)
                    ==> #[trigger] self.retire_spec(a).arena[x as int] == self.arena[x as int],
            self.retire_spec(a).retired.len() <= self.retired.len() + 1,
    {
        let pushed = RcuModel { retired: self.retired.push(a), ..self };
        assert forall|x: usize| x < pushed.arena.len() implies ((
        #[trigger] pushed.arena[x as int]) is Some <==> (x == pushed.current
            || pushed.retired.contains(x))) by {
            lemma_push_contains(self.retired, a, x);
        }
        lemma_push_contains(self.retired, a, self.current);
        assert(pushed.wf());
        assert(forall|x: usize| #[trigger] pushed.protected(x) <==> self.protected(x));
        if pushed.retired.len() >= RETIRE_THRESHOLD {
            pushed.lemma_scan();
            assert(self.retire_spec(a) == pushed.scan_spec());
            assert forall|x: usize| x < self.arena.len() && self.protected(x) implies (
            #[trigger] self.retire_spec(a).arena[x as int]) == self.arena[x as int] by {
                assert(!pushed.freed_by_scan(x));
            }
        } else {
            assert(self.retire_spec(a) == pushed);
        }
    }

    /// A write installs the new value at a fresh address, retires the
    /// superseded one, and keeps the invariant; every protected
    /// address survives.
    pub proof fn lemma_write(self, value: T)
        requires
            self.wf(),
            self.arena.len() < usize::MAX,
        ensures
            (RcuModel {
                arena: self.arena.push(Some(value)),
                current: self.arena.len() as usize,
                registry: self.registry,
                retired: self.retired,
            }).wf_retiring(self.current),
            self.write_spec(value).wf(),
            self.write_spec(value).registry == self.registry,
            self.write_spec(value).current == self.arena.len() as usize,
            self.write_spec(value).arena.len() == self.arena.len() + 1,
            self.write_spec(value).current_value() == value,
            forall|x: usize|
                x < self.arena.len() && self.protected(x)
                    ==> #[trigger] self.write_spec(value).arena[x as int] == self.arena[x as int],
            self.write_spec(value).retired.len() <= self.retired.len() + 1,
    {
        let fresh = self.arena.len() as usize;
        let swapped = RcuModel {
            arena: self.arena.push(Some(value)),
            current: fresh,
            registry: self.registry,
            retired: self.retired,
        };
        assert forall|x: usize| x < swapped.arena.len() implies ((
        #[trigger] swapped.arena[x as int]) is Some <==> (x == swapped.current
            || swapped.retired.contains(x) || x == self.current)) by {
            if x < self.arena.len() {
                assert(swapped.arena[x as int] == self.arena[x as int]);
            } else {
                assert(x == fresh);
                assert(swapped.arena[x as int] == Some(value));
            }
        }
        assert(swapped.wf_retiring(self.current)) by {
            assert(forall|i: int|
                0 <= i < swapped.registry.len() && (#[trigger] swapped.registry[i].hazard) is Some
                    ==> swapped.allocated(swapped.registry[i].hazard.unwrap()));
        }
        swapped.lemma_retire(self.current);
        assert(self.write_spec(value) == swapped.retire_spec(self.current));
        assert(forall|x: usize| #[trigger] swapped.protected(x) <==> self.protected(x));
        assert(swapped.arena[fresh as int] == Some(value));
        assert forall|x: usize| x < self.arena.len() && self.protected(x) implies (
        #[trigger] self.write_spec(value).arena[x as int]) == self.arena[x as int] by {
            assert(swapped.protected(x));
            assert(swapped.arena[x as int] == self.arena[x as int]);
        }
        assert(self.write_spec(value).arena[fresh as int] == swapped.arena[fresh as int]);
        assert(self.write_spec(value).current_value() == value);
    }
}

/// The addresses the registry's slots publish, one per published
/// slot, in slot order: what a snapshot of the hazard slots reads.
pub open spec fn published_addrs(regs: Seq<HazardRecord>) -> Seq<usize>
    decreases regs.len(),
{
    if regs.len() == 0 {
        Seq::empty()
    } else {
        match regs.last().hazard {
            Some(h) => published_addrs(regs.drop_last()).push(h),
            None => published_addrs(regs.drop_last()),
        }
    }
}

proof fn lemma_push_contains<A>(s: Seq<A>, y: A, x: A)
    ensures
        s.push(y).contains(x) <==> (s.contains(x) || x == y),
{
    if s.push(y).contains(x) {
        let i = choose|i: int| 0 <= i < s.push(y).len() && s.push(y)[i] == x;
        if i < s.len() {
            assert(s[i] == x);
        }
    }
    if s.contains(x) {
        let i = choose|i: int| 0 <= i < s.len() && s[i] == x;
        assert(s.push(y)[i] == x);
    }
    assert(s.push(y)[s.len() as int] == y);
}

proof fn lemma_drop_last_contains<A>(s: Seq<A>)
    requires
        s.len() > 0,
    ensures
        forall|x: A| s.contains(x) <==> (s.drop_last().contains(x) || x == s.last()),
{
    assert forall|x: A| s.contains(x) implies (s.drop_last().contains(x) || x == s.last()) by {
        let i = choose|i: int| 0 <= i < s.len() && s[i] == x;
        if i < s.len() - 1 {
            assert(s.drop_last()[i] == x);
        }
    }
    assert forall|x: A| s.drop_last().contains(x) implies s.contains(x) by {
        let i = choose|i: int| 0 <= i < s.drop_last().len() && s.drop_last()[i] == x;
        assert(s[i] == x);
    }
    assert(s[s.len() - 1] == s.last());
}

proof fn lemma_filter_contains_iff<A>(s: Seq<A>, pred: spec_fn(A) -> bool, x: A)
    ensures
        s.filter(pred).contains(x) <==> (s.contains(x) && pred(x)),
    decreases s.len(),
{
    reveal(Seq::filter);
    if s.len() == 0 {
    } else {
        lemma_filter_contains_iff(s.drop_last(), pred, x);
        lemma_drop_last_contains(s);
        if pred(s.last()) {
            lemma_push_contains(s.drop_last().filter(pred), s.last(), x);
        }
    }
}

/// Filtering commutes with appending one element.
proof fn lemma_filter_push<A>(s: Seq<A>, pred: spec_fn(A) -> bool, y: A)
    ensures
        s.push(y).filter(pred) == if pred(y) {
            s.filter(pred).push(y)
        } else {
            s.filter(pred)
        },
{
    reveal(Seq::filter);
    assert(s.push(y).drop_last() =~= s);
    assert(s.push(y).last() == y);
}

/// The shared value cell: an atomic pointer to the current value, the
/// process-wide hazard registry, and the retired list, taken together
/// as one sequential model.
///
/// Registry entries are added on a thread's first read and never
/// removed: a thread that exits leaves its cleared slot behind, so
/// the registry grows with the number of threads ever seen — a
/// deliberate simplification, and a known cost of designs without
/// deregistration.
pub struct Rcu<T> {
    arena: Vec<Option<T>>,
    current: usize,
    registry: Vec<HazardRecord>,
    retired: Vec<usize>,
}

impl<T> View for Rcu<T> {
    type V = RcuModel<T>;

    closed spec fn view(&self) -> RcuModel<T> {
        RcuModel {
            arena: self.arena@,
            current: self.current,
            registry: self.registry@,
            retired: self.retired@,
        }
    }
}

impl<T> Rcu<T> {
    /// Takes ownership of `value` and stores it as the current value.
    pub fn new(value: T) -> (rcu: Rcu<T>)
        ensures
            rcu@.wf(),
            rcu@.arena =~= seq![Some(value)],
            rcu@.current == 0,
            rcu@.registry =~= Seq::<HazardRecord>::empty(),
            rcu@.retired =~= Seq::<usize>::empty(),
    {
        let mut arena: Vec<Option<T>> = Vec::new();
        arena.push(Some(value));
        Rcu { arena, current: 0, registry: Vec::new(), retired: Vec::new() }
    }

    /// How many addresses currently await reclamation.
    pub fn retired_len(&self) -> (n: usize)
        ensures
            n == self@.retired.len(),
    {
        self.retired.len()
    }

    /// How many addresses were ever allocated: one per write, plus
    /// the construction.  Together with [`Rcu::live_values`] this
    /// accounts for every value: freed values are exactly the
    /// allocated ones no longer live, and a freed address is never
    /// allocated again, so nothing is freed twice.
    pub fn allocations(&self) -> (n: usize)
        ensures
            n == self@.arena.len(),
    {
        self.arena.len()
    }

    /// How many threads have registered a hazard slot.
    pub fn registry_len(&self) -> (n: usize)
        ensures
            n == self@.registry.len(),
    {
        self.registry.len()
    }

    /// Finds the position of thread `tid`'s slot in the registry.
    fn slot_of(&self, tid: usize) -> (r: Option<usize>)
        ensures
            match r {
                Some(i) => i < self@.registry.len() && self@.registry[i as int].tid == tid,
                None => !self@.registered(tid),
            },
    {
        let mut i: usize = 0;
        while i < self.registry.len()
            invariant
                i <= self@.registry.len(),
                forall|j: int| 0 <= j < i ==> (#[trigger] self@.registry[j].tid) != tid,
            decreases self@.registry.len() - i,
        {
            if self.registry[i].tid == tid {
                return Some(i);
            }
            i += 1;
        }
        None
    }

    /// Publishes `addr` in the calling thread's hazard slot,
    /// registering the slot on the thread's first use.  In the real
    /// protocol this store carries release ordering so that scans see
    /// it before the reader dereferences.
    pub fn set_hazard(&mut self, tid: usize, addr: usize)
        requires
            old(self)@.wf(),
            old(self)@.allocated(addr),
        ensures
            final(self)@ == old(self)@.publish_at(tid, addr),
            final(self)@.wf(),
            final(self)@.hazard_of(tid) == Some(addr),
    {
        proof {
            old(self)@.lemma_publish_at(tid, addr);
        }
        match self.slot_of(tid) {
            Some(i) => {
                proof {
                    self@.lemma_slot_index(tid, i as int);
                }
                self.registry[i] = HazardRecord { tid, hazard: Some(addr) };
            },
            None => {
                self.registry.push(HazardRecord { tid, hazard: Some(addr) });
            },
        }
    }

    /// Clears the calling thread's hazard slot (a release store in
    /// the real protocol); a no-op for a thread that never read.
    pub fn clear_hazard(&mut self, tid: usize)
        requires
            old(self)@.wf(),
        ensures
            final(self)@ == old(self)@.clear_spec(tid),
            final(self)@.wf(),
            final(self)@.hazard_of(tid) == None::<usize>,
    {
        proof {
            old(self)@.lemma_clear(tid);
        }
        match self.slot_of(tid) {
            Some(i) => {
                proof {
                    self@.lemma_slot_index(tid, i as int);
                }
                self.registry[i] = HazardRecord { tid, hazard: None };
            },
            None => {},
        }
    }

    /// Returns a guard for the current value after running the
    /// double-checked publish protocol: load the current address,
    /// publish it, and re-validate that it is still current before
    /// trusting the publication.
    pub fn read(&mut self, tid: usize) -> (g: ReadGuard)
        requires
            old(self)@.wf(),
        ensures
            final(self)@ == old(self)@.publish_spec(tid),
            final(self)@.wf(),
            g.tid == tid,
            g.addr == old(self)@.current,
            final(self)@.guard_valid(g),
            final(self)@.arena == old(self)@.arena,
            final(self)@.current == old(self)@.current,
            final(self)@.retired == old(self)@.retired,
            final(self)@.value_at(g.addr) == old(self)@.current_value(),
    {
        let ptr = self.current;
        self.set_hazard(tid, ptr);
        // Re-validate the publication: had a writer swapped the
        // pointer between the load and the publish, the stale address
        // would not be protected and the round would repeat.  One
        // linearization step covers the load, the publish and the
        // re-check, so here the re-check always succeeds and the
        // retry loop of the concurrent protocol ends after one round.
        let revalidated = self.current == ptr;
        assert(revalidated);
        ReadGuard { addr: ptr, tid }
    }

    /// Releases a guard: clears the guard's thread's hazard slot.
    pub fn release(&mut self, guard: ReadGuard)
        requires
            old(self)@.wf(),
        ensures
            final(self)@ == old(self)@.clear_spec(guard.tid),
            final(self)@.wf(),
            final(self)@.hazard_of(guard.tid) == None::<usize>,
    {
        self.clear_hazard(guard.tid);
    }

    /// Dereferences through a guard.  The guard's address is still
    /// published, so the invariant says it cannot have been freed.
    pub fn get<'a>(&'a self, guard: &ReadGuard) -> (value: &'a T)
        requires
            self@.wf(),
            self@.guard_valid(*guard),
        ensures
            *value == self@.value_at(guard.addr),
    {
        proof {
            self@.lemma_hazard_allocated(guard.tid);
        }
        self.arena[guard.addr].as_ref().unwrap()
    }

    /// Reads the value at an allocated address.
    pub fn value_at(&self, addr: usize) -> (value: &T)
        requires
            self@.wf(),
            self@.allocated(addr),
        ensures
            *value == self@.value_at(addr),
    {
        self.arena[addr].as_ref().unwrap()
    }

    /// What thread `tid`'s hazard slot currently holds.
    pub fn hazard_of(&self, tid: usize) -> (h: Option<usize>)
        requires
            self@.wf(),
        ensures
            h == self@.hazard_of(tid),
    {
        match self.slot_of(tid) {
            Some(i) => {
                proof {
                    self@.lemma_slot_index(tid, i as int);
                }
                self.registry[i].hazard
            },
            None => None,
        }
    }

    /// Snapshots the published hazards: every registered slot is
    /// loaded and the clear ones are filtered out, each published
    /// slot contributing exactly one entry, in slot order.  This is
    /// the linearization point that defines "currently protected".
    pub fn get_hazard_pointers(&self) -> (hazards: Vec<usize>)
        ensures
            hazards@ == published_addrs(self@.registry),
            forall|a: usize| #[trigger] hazards@.contains(a) <==> self@.protected(a),
    {
        let mut out: Vec<usize> = Vec::new();
        let mut i: usize = 0;
        while i < self.registry.len()
            invariant
                i <= self@.registry.len(),
                out@ == published_addrs(self@.registry.subrange(0, i as int)),
                forall|a: usize|
                    #[trigger] out@.contains(a) <==> exists|j: int|
                        0 <= j < i && (#[trigger] self@.registry[j].hazard) == Some(a),
            decreases self@.registry.len() - i,
        {
            proof {
                assert(self@.registry.subrange(0, i + 1).drop_last() =~= self@.registry.subrange(
                    0,
                    i as int,
                ));
                assert(self@.registry.subrange(0, i + 1).last() == self@.registry[i as int]);
            }
            let slot = self.registry[i].hazard;
            match slot {
                Some(h) => {
                    let ghost prev = out@;
                    out.push(h);
                    assert forall|a: usize| #[trigger] out@.contains(a) implies exists|j: int|
                        0 <= j < i + 1 && (#[trigger] self@.registry[j].hazard) == Some(a) by {
                        lemma_push_contains(prev, h, a);
                        if a == h {
                            assert(self@.registry[i as int].hazard == Some(a));
                        } else {
                            assert(prev.contains(a));
                            let j = choose|j: int|
                                0 <= j < i && (#[trigger] self@.registry[j].hazard) == Some(a);
                            assert(0 <= j < i + 1 && self@.registry[j].hazard == Some(a));
                        }
                    }
                    assert forall|a: usize|
                        exists|j: int|
                            0 <= j < i + 1 && (#[trigger] self@.registry[j].hazard) == Some(
                                a,
                            ) implies #[trigger] out@.contains(a) by {
                        lemma_push_contains(prev, h, a);
                        let j = choose|j: int|
                            0 <= j < i + 1 && (#[trigger] self@.registry[j].hazard) == Some(a);
                        if j == i {
                            assert(a == h);
                        } else {
                            assert(prev.contains(a));
                        }
                    }
                },
                None => {
                    assert forall|a: usize|
                        exists|j: int|
                            0 <= j < i + 1 && (#[trigger] self@.registry[j].hazard) == Some(
                                a,
                            ) implies #[trigger] out@.contains(a) by {
                        let j = choose|j: int|
                            0 <= j < i + 1 && (#[trigger] self@.registry[j].hazard) == Some(a);
                        assert(j != i);
                    }
                    assert forall|a: usize| #[trigger] out@.contains(a) implies exists|j: int|
                        0 <= j < i + 1 && (#[trigger] self@.registry[j].hazard) == Some(a) by {
                        let j = choose|j: int|
                            0 <= j < i && (#[trigger] self@.registry[j].hazard) == Some(a);
                        assert(0 <= j < i + 1 && self@.registry[j].hazard == Some(a));
                    }
                },
            }
            i += 1;
        }
        proof {
            assert(self@.registry.subrange(0, self@.registry.len() as int) =~= self@.registry);
        }
        out
    }

    /// Appends `addr` to the retired list; once the list reaches the
    /// threshold, scans inline on the retiring thread.  It runs at
    /// the point of a write where `addr` has just been swapped out —
    /// allocated but neither current nor yet retired — which is what
    /// `wf_retiring` states, and it restores the full invariant.
    pub fn retire(&mut self, addr: usize)
        requires
            old(self)@.wf_retiring(addr),
        ensures
            final(self)@ == old(self)@.retire_spec(addr),
            final(self)@.wf(),
    {
        proof {
            old(self)@.lemma_retire(addr);
        }
        self.retired.push(addr);
        if self.retired.len() >= RETIRE_THRESHOLD {
            self.scan_and_reclaim();
        }
    }

    /// Frees every retired address that no hazard slot names; the
    /// protected ones stay retired for a future scan.
    #[verifier::loop_isolation(false)]
    pub fn scan_and_reclaim(&mut self)
        requires
            old(self)@.wf(),
        ensures
            final(self)@ == old(self)@.scan_spec(),
            final(self)@.wf(),
    {
        proof {
            old(self)@.lemma_scan();
        }
        let ghost m = self@;
        let ghost pred = |a: usize| m.protected(a);
        let hazards = self.get_hazard_pointers();
        let mut kept: Vec<usize> = Vec::new();
        let mut retired: Vec<usize> = Vec::new();
        core::mem::swap(&mut retired, &mut self.retired);
        let mut i: usize = 0;
        while i < retired.len()
            invariant
                m.wf(),
                i <= retired@.len(),
                retired@ == m.retired,
                self@.registry == m.registry,
                self@.current == m.current,
                self@.retired.len() == 0,
                self@.arena.len() == m.arena.len(),
                forall|a: usize| #[trigger] hazards@.contains(a) <==> m.protected(a),
                kept@ == m.retired.subrange(0, i as int).filter(pred),
                forall|x: int|
                    0 <= x < m.arena.len() && !freed_prefix(m, i as int, x)
                        ==> (#[trigger] self@.arena[x]) == m.arena[x],
                forall|x: int|
                    0 <= x < m.arena.len() && freed_prefix(m, i as int, x)
                        ==> (#[trigger] self@.arena[x]) is None,
            decreases retired@.len() - i,
        {
            let a = retired[i];
            assert(m.retired[i as int] == a);
            if contains_addr(&hazards, a) {
                kept.push(a);
                assert forall|x: int|
                    0 <= x < m.arena.len() && freed_prefix(m, i + 1, x) implies freed_prefix(
                    m,
                    i as int,
                    x,
                ) by {
                    let j = choose|j: int|
                        0 <= j < i + 1 && (#[trigger] m.retired[j]) == x as usize && !m.protected(
                            x as usize,
                        );
                    assert(j < i);
                }
            } else {
                self.arena[a] = None;
                assert(freed_prefix(m, i + 1, a as int));
                assert forall|x: int|
                    0 <= x < m.arena.len() && !freed_prefix(m, i + 1, x) implies !freed_prefix(
                    m,
                    i as int,
                    x,
                ) && x != a as int by {
                    if x == a as int {
                        assert(m.retired[i as int] == x as usize);
                    }
                }
            }
            proof {
                assert(pred(a) == m.protected(a));
                lemma_filter_push(m.retired.subrange(0, i as int), pred, m.retired[i as int]);
                assert(m.retired.subrange(0, i + 1) =~= m.retired.subrange(0, i as int).push(
                    m.retired[i as int],
                ));
            }
            i += 1;
        }
        self.retired = kept;
        proof {
            assert(m.retired.subrange(0, m.retired.len() as int) =~= m.retired);
            assert forall|x: int| 0 <= x < m.arena.len() implies freed_prefix(
                m,
                m.retired.len() as int,
                x,
            ) == m.freed_by_scan(x as usize) by {
                if m.freed_by_scan(x as usize) {
                    let j = choose|j: int|
                        0 <= j < m.retired.len() && (#[trigger] m.retired[j]) == x as usize;
                    assert(freed_prefix(m, m.retired.len() as int, x));
                }
            }
            assert(self@.arena =~= m.scan_spec().arena);
            assert(self@ =~= m.scan_spec());
        }
    }

    /// Installs a new value: allocate it, atomically make it current,
    /// and retire the superseded address.  Writers never block on
    /// readers; concurrent writers are serialized by the exchange on
    /// the current pointer, which here is one linearization step.
    pub fn write(&mut self, value: T)
        requires
            old(self)@.wf(),
            old(self)@.arena.len() < usize::MAX,
        ensures
            final(self)@ == old(self)@.write_spec(value),
            final(self)@.wf(),
            final(self)@.current_value() == value,
            final(self)@.current == old(self)@.arena.len(),
            final(self)@.arena.len() == old(self)@.arena.len() + 1,
            final(self)@.registry == old(self)@.registry,
    {
        proof {
            old(self)@.lemma_write(value);
        }
        self.arena.push(Some(value));
        let new_ptr = self.arena.len() - 1;
        let old_ptr = self.current;
        self.current = new_ptr;
        // hand the superseded address to the retire operation
        self.retire(old_ptr);
    }

    /// Tears the cell down: frees every retired address and then the
    /// current value.  By contract no reader may still hold a guard,
    /// which is what `no_hazards` states.
    pub fn destroy(&mut self)
        requires
            old(self)@.wf(),
            old(self)@.no_hazards(),
        ensures
            final(self)@.arena.len() == old(self)@.arena.len(),
            forall|x: int| 0 <= x < final(self)@.arena.len() ==> final(self)@.arena[x] is None,
            final(self)@.retired.len() == 0,
            final(self)@.live_count() == 0,
    {
        proof {
            old(self)@.lemma_scan();
            let s = old(self)@.scan_spec();
            if s.retired.len() > 0 {
                assert(s.retired.contains(s.retired[0]));
                assert(old(self)@.protected(s.retired[0]));
                let j = choose|j: int|
                    0 <= j < old(self)@.registry.len() && (#[trigger] old(
                        self,
                    )@.registry[j].hazard) == Some(s.retired[0]);
                assert(old(self)@.registry[j].hazard is None);
            }
        }
        self.scan_and_reclaim();
        let cur = self.current;
        self.arena[cur] = None;
        proof {
            let f = self@;
            assert forall|x: int| 0 <= x < f.arena.len() implies f.arena[x] is None by {
                if x != cur as int {
                    assert(!old(self)@.scan_spec().retired.contains(x as usize));
                }
            }
            if f.live_count() > 0 {
                let fil = f.arena.filter(|o: Option<T>| o is Some);
                assert(fil.contains(fil[0]));
                lemma_filter_contains_iff(f.arena, |o: Option<T>| o is Some, fil[0]);
                let j = choose|j: int| 0 <= j < f.arena.len() && f.arena[j] == fil[0];
                assert(f.arena[j] is None);
            }
        }
    }

    /// How many values are live in the arena.
    #[verifier::loop_isolation(false)]
    pub fn live_values(&self) -> (n: usize)
        ensures
            n == self@.live_count(),
    {
        let ghost pred = |o: Option<T>| o is Some;
        let mut n: usize = 0;
        let mut i: usize = 0;
        while i < self.arena.len()
            invariant
                i <= self@.arena.len(),
                n <= i,
                n == self@.arena.subrange(0, i as int).filter(pred).len(),
            decreases self@.arena.len() - i,
        {
            if self.arena[i].is_some() {
                n += 1;
            }
            proof {
                assert(pred(self@.arena[i as int]) == (self@.arena[i as int] is Some));
                lemma_filter_push(self@.arena.subrange(0, i as int), pred, self@.arena[i as int]);
                assert(self@.arena.subrange(0, i + 1) =~= self@.arena.subrange(0, i as int).push(
                    self@.arena[i as int],
                ));
                self@.arena.subrange(0, i + 1).lemma_filter_len(pred);
            }
            i += 1;
        }
        proof {
            assert(self@.arena.subrange(0, self@.arena.len() as int) =~= self@.arena);
        }
        n
    }
}

/// One linearization step of the protocol, as some thread takes it.
/// A whole concurrent execution is a sequence of these.
pub enum ProtocolStep<T> {
    /// Thread `tid` runs the publish half of a read.
    Publish { tid: usize },
    /// Thread `tid` clears its slot, releasing its guard.
    Clear { tid: usize },
    /// Some writer installs `value`.
    Write { value: T },
    /// Some thread scans the hazard slots and reclaims.
    Scan,
}

/// Whether `s` is a step that thread `tid` takes on its own hazard
/// slot.  Writes and scans belong to no slot.
pub open spec fn step_by<T>(s: ProtocolStep<T>, tid: usize) -> bool {
    ||| s matches ProtocolStep::Publish { tid: t } && t == tid
    ||| s matches ProtocolStep::Clear { tid: t } && t == tid
}

/// No step of `steps` is thread `tid`'s own.
pub open spec fn no_step_by<T>(steps: Seq<ProtocolStep<T>>, tid: usize) -> bool {
    forall|i: int| 0 <= i < steps.len() ==> !step_by(#[trigger] steps[i], tid)
}

impl<T> RcuModel<T> {
    /// The state one protocol step leads to.  A write that would
    /// exhaust the address space stutters; no execution reaches one.
    pub open spec fn step(self, s: ProtocolStep<T>) -> RcuModel<T> {
        match s {
            ProtocolStep::Publish { tid } => self.publish_spec(tid),
            ProtocolStep::Clear { tid } => self.clear_spec(tid),
            ProtocolStep::Write { value } => if self.arena.len() < usize::MAX {
                self.write_spec(value)
            } else {
                self
            },
            ProtocolStep::Scan => self.scan_spec(),
        }
    }

    /// The state a whole sequence of steps leads to.
    pub open spec fn run(self, steps: Seq<ProtocolStep<T>>) -> RcuModel<T>
        decreases steps.len(),
    {
        if steps.len() == 0 {
            self
        } else {
            self.step(steps.first()).run(steps.drop_first())
        }
    }

    /// Every interleaving of protocol steps keeps the invariant.
    pub proof fn lemma_wf_over_any_interleaving(self, steps: Seq<ProtocolStep<T>>)
        requires
            self.wf(),
        ensures
            self.run(steps).wf(),
        decreases steps.len(),
    {
        if steps.len() > 0 {
            let next = self.step(steps.first());
            match steps.first() {
                ProtocolStep::Publish { tid } => {
                    self.lemma_publish_at(tid, self.current);
                },
                ProtocolStep::Clear { tid } => {
                    self.lemma_clear(tid);
                },
                ProtocolStep::Write { value } => {
                    if self.arena.len() < usize::MAX {
                        self.lemma_write(value);
                    }
                },
                ProtocolStep::Scan => {
                    self.lemma_scan();
                },
            }
            next.lemma_wf_over_any_interleaving(steps.drop_first());
        }
    }
}

/// No use-after-free, for every interleaving: however the reads,
/// releases, writes and scans of the other threads interleave, a
/// guard stays valid and the value it names stays untouched until
/// the guard's own thread clears its slot.
pub proof fn lemma_guard_stable_over_any_interleaving<T>(
    m: RcuModel<T>,
    steps: Seq<ProtocolStep<T>>,
    g: ReadGuard,
)
    requires
        m.wf(),
        m.guard_valid(g),
        no_step_by(steps, g.tid),
    ensures
        m.run(steps).wf(),
        m.run(steps).guard_valid(g),
        m.run(steps).allocated(g.addr),
        m.run(steps).value_at(g.addr) == m.value_at(g.addr),
    decreases steps.len(),
{
    m.lemma_hazard_allocated(g.tid);
    if steps.len() > 0 {
        let next = m.step(steps.first());
        assert(!step_by(steps.first(), g.tid));
        match steps.first() {
            ProtocolStep::Publish { tid } => {
                lemma_other_reader_preserves_guard(m, tid, g);
                m.lemma_publish_at(tid, m.current);
            },
            ProtocolStep::Clear { tid } => {
                lemma_other_reader_preserves_guard(m, tid, g);
                m.lemma_clear(tid);
            },
            ProtocolStep::Write { value } => {
                if m.arena.len() < usize::MAX {
                    lemma_write_preserves_guard(m, value, g);
                    m.lemma_write(value);
                }
            },
            ProtocolStep::Scan => {
                lemma_scan_preserves_guard(m, g);
                m.lemma_scan();
            },
        }
        assert forall|i: int| 0 <= i < steps.drop_first().len() implies !step_by(
            #[trigger] steps.drop_first()[i],
            g.tid,
        ) by {
            assert(steps.drop_first()[i] == steps[i + 1]);
        }
        lemma_guard_stable_over_any_interleaving(next, steps.drop_first(), g);
    }
}

/// Read-after-write visibility: once a write has installed `value`,
/// a read that then runs the publish protocol returns a guard for
/// exactly that value.
pub proof fn lemma_read_after_write<T>(m: RcuModel<T>, value: T, tid: usize)
    requires
        m.wf(),
        m.arena.len() < usize::MAX,
    ensures
        ({
            let w = m.write_spec(value);
            let r = w.publish_spec(tid);
            &&& w.current_value() == value
            &&& r.guard_valid(ReadGuard { addr: w.current, tid })
            &&& r.value_at(w.current) == value
        }),
{
    m.lemma_write(value);
    let w = m.write_spec(value);
    w.lemma_publish_at(tid, w.current);
}

/// No use-after-free, the base fact: while a guard's address is
/// still published, the address is allocated, so dereferencing
/// through the guard touches a live value.
pub proof fn lemma_guard_protected<T>(m: RcuModel<T>, g: ReadGuard)
    requires
        m.wf(),
        m.guard_valid(g),
    ensures
        m.allocated(g.addr),
        m.protected(g.addr),
{
    m.lemma_hazard_allocated(g.tid);
}

/// No use-after-free under scans: a scan neither frees a guarded
/// address nor changes the value it names, whatever else it reclaims.
pub proof fn lemma_scan_preserves_guard<T>(m: RcuModel<T>, g: ReadGuard)
    requires
        m.wf(),
        m.guard_valid(g),
    ensures
        m.scan_spec().guard_valid(g),
        m.scan_spec().allocated(g.addr),
        m.scan_spec().value_at(g.addr) == m.value_at(g.addr),
{
    m.lemma_hazard_allocated(g.tid);
    m.lemma_scan();
    let s = m.scan_spec();
    let j = m.slot_index(g.tid);
    assert(0 <= j < m.registry.len() && m.registry[j].tid == g.tid);
    s.lemma_slot_index(g.tid, j);
    assert(!m.freed_by_scan(g.addr));
}

/// No use-after-free under writes: a write — including the inline
/// scan it may trigger — neither frees a guarded address nor changes
/// the value it names.
pub proof fn lemma_write_preserves_guard<T>(m: RcuModel<T>, value: T, g: ReadGuard)
    requires
        m.wf(),
        m.arena.len() < usize::MAX,
        m.guard_valid(g),
    ensures
        m.write_spec(value).guard_valid(g),
        m.write_spec(value).allocated(g.addr),
        m.write_spec(value).value_at(g.addr) == m.value_at(g.addr),
{
    m.lemma_hazard_allocated(g.tid);
    m.lemma_write(value);
    let w = m.write_spec(value);
    let j = m.slot_index(g.tid);
    assert(0 <= j < m.registry.len() && m.registry[j].tid == g.tid);
    w.lemma_slot_index(g.tid, j);
}

/// No use-after-free under other readers: another thread publishing
/// or clearing its own slot leaves a guard's claim and value intact.
pub proof fn lemma_other_reader_preserves_guard<T>(m: RcuModel<T>, tid: usize, g: ReadGuard)
    requires
        m.wf(),
        m.guard_valid(g),
        tid != g.tid,
    ensures
        m.publish_spec(tid).guard_valid(g),
        m.publish_spec(tid).value_at(g.addr) == m.value_at(g.addr),
        m.clear_spec(tid).guard_valid(g),
        m.clear_spec(tid).value_at(g.addr) == m.value_at(g.addr),
{
    assert(m.allocated(m.current));
    m.lemma_publish_at(tid, m.current);
    m.lemma_clear(tid);
}

/// Reclamation liveness: once every reader has released its guard,
/// a scan reclaims the whole retired list, leaving only the current
/// value live.
pub proof fn lemma_reclamation_liveness<T>(m: RcuModel<T>)
    requires
        m.wf(),
        m.no_hazards(),
    ensures
        m.scan_spec().retired.len() == 0,
        forall|a: usize|
            a < m.arena.len() ==> (#[trigger] m.scan_spec().allocated(a) <==> a == m.current),
{
    m.lemma_scan();
    let s = m.scan_spec();
    if s.retired.len() > 0 {
        assert(s.retired.contains(s.retired[0]));
        assert(m.protected(s.retired[0]));
        let j = choose|j: int|
            0 <= j < m.registry.len() && (#[trigger] m.registry[j].hazard) == Some(s.retired[0]);
        assert(m.registry[j].hazard is None);
    }
    assert forall|a: usize| a < m.arena.len() implies (#[trigger] s.allocated(a) <==> a
        == m.current) by {
        if s.retired.contains(a) {
            assert(false);
        }
    }
}

/// Reclamation liveness at the write that crosses the threshold:
/// with no guards outstanding, a write leaves the retired list below
/// the threshold — the inline scan empties it entirely.
pub proof fn lemma_write_bounds_retired<T>(m: RcuModel<T>, value: T)
    requires
        m.wf(),
        m.no_hazards(),
        m.arena.len() < usize::MAX,
    ensures
        m.write_spec(value).retired.len() < RETIRE_THRESHOLD,
{
    m.lemma_write(value);
    let fresh = m.arena.len() as usize;
    let swapped = RcuModel {
        arena: m.arena.push(Some(value)),
        current: fresh,
        registry: m.registry,
        retired: m.retired,
    };
    swapped.lemma_retire(m.current);
    let pushed = RcuModel { retired: m.retired.push(m.current), ..swapped };
    assert(m.write_spec(value) == if pushed.retired.len() >= RETIRE_THRESHOLD {
        pushed.scan_spec()
    } else {
        pushed
    });
    if pushed.retired.len() >= RETIRE_THRESHOLD {
        assert(pushed.no_hazards());
        lemma_reclamation_liveness(pushed);
    }
}

/// Hazard publish/clear symmetry: a read publishes the current
/// address in its thread's slot, releasing the guard clears it
/// again, and no other thread's slot is touched by either step.
pub proof fn lemma_publish_clear_symmetry<T>(m: RcuModel<T>, tid: usize)
    requires
        m.wf(),
    ensures
        m.publish_spec(tid).hazard_of(tid) == Some(m.current),
        m.publish_spec(tid).clear_spec(tid).hazard_of(tid) == None::<usize>,
        forall|t2: usize|
            t2 != tid ==> #[trigger] m.publish_spec(tid).clear_spec(tid).hazard_of(t2)
                == m.hazard_of(t2),
{
    assert(m.allocated(m.current));
    m.lemma_publish_at(tid, m.current);
    m.publish_spec(tid).lemma_clear(tid);
}

/// Whether one of the first `k` retired addresses of `m` is `x` and
/// unprotected: the addresses a scan has freed after `k` loop rounds.
spec fn freed_prefix<T>(m: RcuModel<T>, k: int, x: int) -> bool {
    exists|j: int|
        0 <= j < k && (#[trigger] m.retired[j]) == x as usize && !m.protected(x as usize)
}

/// Whether `haystack` holds `needle`.
fn contains_addr(haystack: &Vec<usize>, needle: usize) -> (found: bool)
    ensures
        found == haystack@.contains(needle),
{
    let mut i: usize = 0;
    while i < haystack.len()
        invariant
            i <= haystack@.len(),
            forall|j: int| 0 <= j < i ==> (#[trigger] haystack@[j]) != needle,
        decreases haystack@.len() - i,
    {
        if haystack[i] == needle {
            return true;
        }
        i += 1;
    }
    false
}

} // verus!

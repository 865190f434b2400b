//! The books of a pool, as mathematics.
//!
//! A pool is built with `capacity` connections and has a slot for each, a
//! number below `capacity`. A slot is either idle, with its connection
//! waiting in the pool, or leased, with its connection in a caller's hands.
//! The laws below say that the two kinds together are always all the slots,
//! and that no slot is ever both.

use vstd::prelude::*;

verus! {

/// What a pool holds at one instant.
pub struct PoolView<C> {
    /// The endpoint that every connection of the pool was opened to.
    pub url: Seq<char>,
    /// How many connections the pool was built with.
    pub capacity: nat,
    /// The idle connections; the last one is handed out next.
    pub idle: Seq<C>,
    /// The slot of each idle connection, in the same order.
    pub slots: Seq<nat>,
}

/// One thing that can happen to a pool once it is built.
pub enum Step<C> {
    /// A caller takes the next idle connection.
    Acquire,
    /// A caller hands back the connection of a slot.
    Release { slot: nat, conn: C },
}

/// The slots of a pool of `n` connections.
pub open spec fn slots_below(n: nat) -> Set<nat> {
    Set::new(|slot: nat| slot < n)
}

impl<C> PoolView<C> {
    /// A pool just built from `conns`: all of them idle, in slots `0, 1, ..`.
    pub open spec fn fresh(url: Seq<char>, conns: Seq<C>) -> Self {
        PoolView {
            url,
            capacity: conns.len(),
            idle: conns,
            slots: Seq::new(conns.len(), |i: int| i as nat),
        }
    }

    /// The books are in order: every idle connection has a slot of the pool,
    /// and no slot is idle twice.
    pub open spec fn wf(self) -> bool {
        &&& self.slots.len() == self.idle.len()
        &&& self.slots.no_duplicates()
        &&& forall|i: int| 0 <= i < self.slots.len() ==> #[trigger] self.slots[i] < self.capacity
    }

    /// The connection of `slot` is waiting in the pool.
    pub open spec fn is_idle(self, slot: nat) -> bool {
        self.slots.contains(slot)
    }

    /// The connection of `slot` is in a caller's hands.
    pub open spec fn is_leased(self, slot: nat) -> bool {
        slot < self.capacity && !self.slots.contains(slot)
    }

    /// The slots whose connections are in callers' hands.
    pub open spec fn leased(self) -> Set<nat> {
        Set::new(|slot: nat| self.is_leased(slot))
    }

    /// A caller that asks now gets a connection and need not wait.
    pub open spec fn can_acquire(self) -> bool {
        self.idle.len() > 0
    }

    /// Fewer connections are idle than the pool was built with: one can come
    /// back.
    pub open spec fn has_room(self) -> bool {
        self.idle.len() < self.capacity
    }

    /// The slot that a connection goes into when it comes back from a lease
    /// on `slot`: that slot if it is leased, as it is for every lease that
    /// this pool issued and has not yet got back; else some slot that is.
    pub open spec fn returning_slot(self, slot: nat) -> nat {
        if self.is_leased(slot) {
            slot
        } else {
            choose|other: nat| self.is_leased(other)
        }
    }

    /// The slot that is handed out next.
    pub open spec fn next_slot(self) -> nat
        recommends
            self.can_acquire(),
    {
        self.slots.last()
    }

    /// The connection that is handed out next.
    pub open spec fn next_conn(self) -> C
        recommends
            self.can_acquire(),
    {
        self.idle.last()
    }

    /// The pool after its next connection was handed out.
    pub open spec fn after_acquire(self) -> Self
        recommends
            self.can_acquire(),
    {
        PoolView { idle: self.idle.drop_last(), slots: self.slots.drop_last(), ..self }
    }

    /// The pool after `conn` came back into `slot`.
    pub open spec fn after_release(self, slot: nat, conn: C) -> Self
        recommends
            self.is_leased(slot),
    {
        PoolView { idle: self.idle.push(conn), slots: self.slots.push(slot), ..self }
    }

    /// `step` can happen now.
    pub open spec fn allows(self, step: Step<C>) -> bool {
        match step {
            Step::Acquire => self.can_acquire(),
            Step::Release { slot, conn } => self.is_leased(slot),
        }
    }

    /// The pool after `step`.
    pub open spec fn after(self, step: Step<C>) -> Self {
        match step {
            Step::Acquire => self.after_acquire(),
            Step::Release { slot, conn } => self.after_release(slot, conn),
        }
    }

    /// Every step of `steps` can happen in its turn, starting from here.
    pub open spec fn allows_all(self, steps: Seq<Step<C>>) -> bool
        decreases steps.len(),
    {
        steps.len() == 0 || (self.allows(steps.first()) && self.after(steps.first()).allows_all(
            steps.drop_first(),
        ))
    }

    /// The pool after all of `steps`, one after the other.
    pub open spec fn after_all(self, steps: Seq<Step<C>>) -> Self
        decreases steps.len(),
    {
        if steps.len() == 0 {
            self
        } else {
            self.after(steps.first()).after_all(steps.drop_first())
        }
    }
}

/// There are exactly `n` slots below `n`.
pub proof fn lemma_slots_below(n: nat)
    ensures
        slots_below(n).finite(),
        slots_below(n).len() == n,
    decreases n,
{
    if n == 0 {
        assert(slots_below(n) =~= Set::<nat>::empty());
    } else {
        let m = (n - 1) as nat;
        lemma_slots_below(m);
        assert(slots_below(n) =~= slots_below(m).insert(m));
    }
}

/// A pool that was just built is in order, has every connection idle and
/// none leased.
pub proof fn lemma_fresh_pool_is_full<C>(url: Seq<char>, conns: Seq<C>)
    ensures
        PoolView::fresh(url, conns).wf(),
        PoolView::fresh(url, conns).idle.len() == PoolView::fresh(url, conns).capacity,
        PoolView::fresh(url, conns).capacity == conns.len(),
        PoolView::fresh(url, conns).leased() == Set::<nat>::empty(),
{
    let s = PoolView::fresh(url, conns);
    assert forall|slot: nat| !s.is_leased(slot) by {
        if slot < s.capacity {
            assert(s.slots[slot as int] == slot);
        }
    }
}

/// Conservation: in a pool whose books are in order, the idle connections and
/// the leased ones are together exactly as many as the pool was built with.
pub proof fn lemma_conservation<C>(s: PoolView<C>)
    requires
        s.wf(),
    ensures
        s.leased().finite(),
        s.idle.len() + s.leased().len() == s.capacity,
        s.idle.len() <= s.capacity,
{
    let all = slots_below(s.capacity);
    let idle = s.slots.to_set();
    lemma_slots_below(s.capacity);
    s.slots.unique_seq_to_set();
    vstd::seq_lib::seq_to_set_is_finite(s.slots);
    assert forall|slot: nat| idle.contains(slot) implies all.contains(slot) by {
        let i = s.slots.index_of(slot);
        assert(s.slots[i] < s.capacity);
    }
    assert(s.leased() =~= all.difference(idle));
    assert(all.intersect(idle) =~= idle);
    vstd::set_lib::lemma_set_difference_len(all, idle);
}

/// A pool has room exactly when one of its slots is leased. So a lease that
/// the pool issued and has not yet got back can always go back, and whatever
/// comes back finds a slot that is leased.
pub proof fn lemma_room_is_a_leased_slot<C>(s: PoolView<C>)
    requires
        s.wf(),
    ensures
        s.has_room() <==> exists|slot: nat| s.is_leased(slot),
        s.has_room() ==> forall|slot: nat| s.is_leased(#[trigger] s.returning_slot(slot)),
{
    lemma_conservation(s);
    if s.has_room() {
        vstd::set_lib::lemma_set_empty_equivalency_len(s.leased());
        let witness = choose|slot: nat| s.leased().contains(slot);
        assert(s.is_leased(witness));
    }
    if exists|slot: nat| s.is_leased(slot) {
        let slot = choose|slot: nat| s.is_leased(slot);
        assert(s.leased().contains(slot));
        vstd::set_lib::lemma_set_empty_equivalency_len(s.leased());
    }
}

/// Handing a connection out keeps the books in order and moves exactly one
/// slot from idle to leased. No caller held that slot before.
pub proof fn lemma_acquire_moves_one<C>(s: PoolView<C>)
    requires
        s.wf(),
        s.can_acquire(),
    ensures
        s.after_acquire().wf(),
        s.is_idle(s.next_slot()),
        !s.is_leased(s.next_slot()),
        s.after_acquire().is_leased(s.next_slot()),
        !s.after_acquire().is_idle(s.next_slot()),
        s.after_acquire().leased() == s.leased().insert(s.next_slot()),
        s.after_acquire().idle.len() == s.idle.len() - 1,
        s.after_acquire().capacity == s.capacity,
{
    let t = s.after_acquire();
    let slot = s.next_slot();
    assert(s.slots[s.slots.len() - 1] == slot);
    assert forall|x: nat| t.slots.contains(x) <==> (s.slots.contains(x) && x != slot) by {
        if t.slots.contains(x) {
            let i = t.slots.index_of(x);
            assert(s.slots[i] == x);
        }
        if s.slots.contains(x) && x != slot {
            let i = s.slots.index_of(x);
            assert(t.slots[i] == x);
        }
    }
}

/// Handing a connection back keeps the books in order and moves exactly one
/// slot from leased to idle. The pool can then serve a caller at once, and
/// serves that very connection.
pub proof fn lemma_release_returns_one<C>(s: PoolView<C>, slot: nat, conn: C)
    requires
        s.wf(),
        s.is_leased(slot),
    ensures
        s.after_release(slot, conn).wf(),
        s.after_release(slot, conn).is_idle(slot),
        !s.after_release(slot, conn).is_leased(slot),
        s.after_release(slot, conn).leased() == s.leased().remove(slot),
        s.after_release(slot, conn).idle.len() == s.idle.len() + 1,
        s.after_release(slot, conn).capacity == s.capacity,
        s.after_release(slot, conn).can_acquire(),
        s.after_release(slot, conn).next_slot() == slot,
        s.after_release(slot, conn).next_conn() == conn,
        s.after_release(slot, conn).after_acquire() == s,
{
    let t = s.after_release(slot, conn);
    assert(t.slots[s.slots.len() as int] == slot);
    assert forall|x: nat| t.slots.contains(x) <==> (s.slots.contains(x) || x == slot) by {
        if t.slots.contains(x) && x != slot {
            let i = t.slots.index_of(x);
            assert(s.slots[i] == x);
        }
        if s.slots.contains(x) {
            let i = s.slots.index_of(x);
            assert(t.slots[i] == x);
        }
    }
    assert(t.after_acquire().idle =~= s.idle);
    assert(t.after_acquire().slots =~= s.slots);
}

/// Two callers that are served one after the other get different slots, and
/// the first slot stays leased: no connection is in two hands at once.
pub proof fn lemma_leases_are_exclusive<C>(s: PoolView<C>)
    requires
        s.wf(),
        s.can_acquire(),
        s.after_acquire().can_acquire(),
    ensures
        s.next_slot() != s.after_acquire().next_slot(),
        s.after_acquire().after_acquire().is_leased(s.next_slot()),
        s.after_acquire().after_acquire().is_leased(s.after_acquire().next_slot()),
{
    lemma_acquire_moves_one(s);
    lemma_acquire_moves_one(s.after_acquire());
}

/// A pool built with no connections never serves anyone, and nothing can be
/// handed back to it.
pub proof fn lemma_empty_pool_never_serves<C>(s: PoolView<C>)
    requires
        s.wf(),
        s.capacity == 0,
    ensures
        !s.can_acquire(),
        forall|slot: nat| !s.is_leased(slot),
{
    if s.idle.len() > 0 {
        assert(s.slots[0] < s.capacity);
    }
}

/// Whatever happens to a pool after it is built, step by step, its books stay
/// in order and its capacity and endpoint stay what they were: at every
/// instant the idle and the leased connections are together exactly the
/// connections it was built with.
pub proof fn lemma_conservation_at_every_instant<C>(s: PoolView<C>, steps: Seq<Step<C>>)
    requires
        s.wf(),
        s.allows_all(steps),
    ensures
        s.after_all(steps).wf(),
        s.after_all(steps).capacity == s.capacity,
        s.after_all(steps).url == s.url,
        s.after_all(steps).leased().finite(),
        s.after_all(steps).idle.len() + s.after_all(steps).leased().len() == s.capacity,
    decreases steps.len(),
{
    if steps.len() == 0 {
        lemma_conservation(s);
    } else {
        match steps.first() {
            Step::Acquire => lemma_acquire_moves_one(s),
            Step::Release { slot, conn } => lemma_release_returns_one(s, slot, conn),
        }
        lemma_conservation_at_every_instant(s.after(steps.first()), steps.drop_first());
    }
}

} // verus!

//! The pool itself.

use vstd::prelude::*;
use crate::connection::{always_connects, connect_result, never_connects, Connection};
use crate::ledger::{lemma_acquire_moves_one, lemma_conservation, lemma_fresh_pool_is_full,
    lemma_release_returns_one, lemma_room_is_a_leased_slot, PoolView};
use crate::lease::PooledPostgresConnection;
use crate::state::InnerConnectionPool;

verus! {

/// A simple fixed-size connection pool.
///
/// All of its connections are opened when it is built. `get_connection`
/// hands the next idle one out as a lease, and the lease's `release` brings
/// it back.
pub struct PostgresConnectionPool<C> {
    pool: InnerConnectionPool<C>,
    size: usize,
    slots: Ghost<Seq<nat>>,
}

impl<C> View for PostgresConnectionPool<C> {
    type V = PoolView<C>;

    closed spec fn view(&self) -> PoolView<C> {
        PoolView {
            url: self.pool.url(),
            capacity: self.size as nat,
            idle: self.pool.idle(),
            slots: self.slots@,
        }
    }
}

impl<C> PostgresConnectionPool<C> {
    /// The books of the pool are in order.
    pub open spec fn wf(&self) -> bool {
        self@.wf()
    }

    /// Closes the building of a pool: the connections opened so far are all
    /// the connections it will ever have.
    pub fn seal(state: InnerConnectionPool<C>) -> (pool: Self)
        ensures
            pool.wf(),
            pool@ == PoolView::fresh(state.url(), state.idle()),
    {
        let size = state.len();
        let ghost slots = Seq::new(size as nat, |i: int| i as nat);
        proof {
            lemma_fresh_pool_is_full(state.url(), state.idle());
        }
        PostgresConnectionPool { pool: state, size, slots: Ghost(slots) }
    }

    /// The endpoint that the connections were opened to.
    pub fn url(&self) -> (url: &str)
        ensures
            url@ == self@.url,
    {
        self.pool.endpoint()
    }

    /// How many connections the pool was built with.
    pub fn size(&self) -> (n: usize)
        ensures
            n == self@.capacity,
    {
        self.size
    }

    /// How many connections are idle now.
    pub fn idle_count(&self) -> (n: usize)
        ensures
            n == self@.idle.len(),
    {
        self.pool.len()
    }

    /// How many connections are in callers' hands now.
    pub fn leased_count(&self) -> (n: usize)
        requires
            self.wf(),
        ensures
            n == self@.leased().len(),
            n + self@.idle.len() == self@.capacity,
    {
        proof {
            lemma_conservation(self@);
        }
        self.size - self.pool.len()
    }

    /// Retrieves a connection from the pool, if one is idle.
    ///
    /// `None` means that all connections are in use: the caller has to wait
    /// until one is released and ask again. The pool is then as it was.
    /// Otherwise the next idle connection leaves the pool in a lease, and no
    /// other lease is on its slot.
    pub fn get_connection(&mut self) -> (lease: Option<PooledPostgresConnection<C>>)
        requires
            old(self).wf(),
        ensures
            final(self).wf(),
            lease is None <==> !old(self)@.can_acquire(),
            match lease {
                None => final(self)@ == old(self)@,
                Some(lease) => {
                    &&& lease.held()
                    &&& lease.conn() == old(self)@.next_conn()
                    &&& lease.slot() == old(self)@.next_slot()
                    &&& final(self)@ == old(self)@.after_acquire()
                    &&& !old(self)@.is_leased(lease.slot())
                    &&& final(self)@.is_leased(lease.slot())
                    &&& final(self)@.leased() == old(self)@.leased().insert(lease.slot())
                },
            },
    {
        match self.pool.pop() {
            None => None,
            Some(conn) => {
                let ghost slot = self.slots@.last();
                proof {
                    lemma_acquire_moves_one(old(self)@);
                    self.slots@ = self.slots@.drop_last();
                }
                Some(PooledPostgresConnection::issue(conn, Ghost(slot)))
            },
        }
    }

    /// Whether a connection can come back: fewer are idle than the pool was
    /// built with.
    pub fn has_room(&self) -> (room: bool)
        ensures
            room == self@.has_room(),
    {
        self.pool.len() < self.size
    }

    /// Takes `conn` back from a lease on `slot`.
    pub(crate) fn take_back(&mut self, conn: C, Ghost(slot): Ghost<nat>)
        requires
            old(self).wf(),
            old(self)@.has_room(),
        ensures
            final(self).wf(),
            final(self)@ == old(self)@.after_release(old(self)@.returning_slot(slot), conn),
    {
        let ghost into = self@.returning_slot(slot);
        proof {
            lemma_room_is_a_leased_slot(self@);
            lemma_release_returns_one(self@, into, conn);
        }
        self.pool.push(conn);
        proof {
            self.slots@ = self.slots@.push(into);
        }
    }
}

impl<C: Connection> PostgresConnectionPool<C> {
    /// Attempts to create a new pool with the specified number of connections.
    ///
    /// The connections are opened one after the other. The first one that
    /// cannot be opened ends the attempt: its error comes back, and the
    /// connections opened before it are dropped with everything else.
    pub fn try_new(url: &str, pool_size: usize) -> (r: Result<Self, C::ConnectError>)
        ensures
            pool_size == 0 ==> r is Ok,
            always_connects::<C>(url@) ==> r is Ok,
            never_connects::<C>(url@) && pool_size > 0 ==> r is Err,
            match r {
                Ok(pool) => {
                    &&& pool.wf()
                    &&& pool@ == PoolView::fresh(url@, pool@.idle)
                    &&& pool@.capacity == pool_size
                    &&& forall|i: int|
                        0 <= i < pool_size ==> connect_result::<C>(
                            url@,
                            Ok(#[trigger] pool@.idle[i]),
                        )
                },
                Err(e) => pool_size > 0 && connect_result::<C>(url@, Err(e)),
            },
    {
        let mut state = InnerConnectionPool::new(url);
        while state.len() < pool_size
            invariant
                state.url() == url@,
                state.idle().len() <= pool_size,
                forall|i: int|
                    0 <= i < state.idle().len() ==> connect_result::<C>(
                        url@,
                        Ok(#[trigger] state.idle()[i]),
                    ),
            decreases pool_size - state.idle().len(),
        {
            match state.new_connection() {
                None => (),
                Some(err) => return Err(err),
            }
        }
        proof {
            if pool_size > 0 {
                assert(connect_result::<C>(url@, Ok(state.idle()[0])));
            }
        }
        Ok(Self::seal(state))
    }

    /// A convenience function wrapping `try_new`, for an endpoint that never
    /// refuses a connection.
    pub fn new(url: &str, pool_size: usize) -> (pool: Self)
        requires
            always_connects::<C>(url@),
        ensures
            pool.wf(),
            pool@ == PoolView::fresh(url@, pool@.idle),
            pool@.capacity == pool_size,
            forall|i: int|
                0 <= i < pool_size ==> connect_result::<C>(url@, Ok(#[trigger] pool@.idle[i])),
    {
        match Self::try_new(url, pool_size) {
            Ok(pool) => pool,
            Err(_) => vstd::pervasive::unreached(),
        }
    }
}

} // verus!

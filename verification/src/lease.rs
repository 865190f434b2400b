//! A connection in a caller's hands.

use vstd::prelude::*;
use crate::connection::{Connection, Transact};
use crate::ledger::{lemma_release_returns_one, lemma_room_is_a_leased_slot};
use crate::pool::PostgresConnectionPool;

verus! {

/// A connection taken out of a pool.
///
/// The lease holds its connection from the moment the pool hands it out until
/// `release` gives it back; after that it holds nothing. While it holds the
/// connection, the connection's own operations can be reached through it.
///
/// A lease that is dropped without `release` takes its connection with it:
/// whoever shares a pool between callers releases the lease on every way out
/// of the caller's scope.
pub struct PooledPostgresConnection<C> {
    conn: Option<C>,
    slot: Ghost<nat>,
}

impl<C> PooledPostgresConnection<C> {
    /// The lease still holds its connection.
    pub closed spec fn held(&self) -> bool {
        self.conn is Some
    }

    /// The connection that the lease holds.
    pub closed spec fn conn(&self) -> C
        recommends
            self.held(),
    {
        self.conn->0
    }

    /// The slot that the connection was taken from.
    pub closed spec fn slot(&self) -> nat {
        self.slot@
    }

    /// A lease on `conn`, which was taken from `slot`.
    pub(crate) fn issue(conn: C, Ghost(slot): Ghost<nat>) -> (lease: Self)
        ensures
            lease.held(),
            lease.conn() == conn,
            lease.slot() == slot,
    {
        PooledPostgresConnection { conn: Some(conn), slot: Ghost(slot) }
    }

    /// Whether the lease still holds its connection.
    pub fn is_held(&self) -> (held: bool)
        ensures
            held == self.held(),
    {
        self.conn.is_some()
    }

    /// Hands the connection back to `pool`.
    ///
    /// From a lease that holds its connection, into a pool that has room, the
    /// connection goes back and becomes the next one that `pool` hands out.
    /// The answer is then `true`, and a caller that waits for a connection
    /// can be woken. This is what happens to every lease that goes back, once,
    /// to the pool that issued it.
    ///
    /// A lease that was released before holds nothing and gives nothing back,
    /// and a pool that has all its connections takes none: the answer is
    /// `false`, and lease and pool are as they were.
    pub fn release(&mut self, pool: &mut PostgresConnectionPool<C>) -> (returned: bool)
        requires
            old(pool).wf(),
        ensures
            final(pool).wf(),
            returned <==> old(self).held() && old(pool)@.has_room(),
            old(self).held() && old(pool)@.is_leased(old(self).slot()) ==> returned,
            returned ==> {
                &&& !final(self).held()
                &&& final(self).slot() == old(self).slot()
                &&& final(pool)@ == old(pool)@.after_release(
                    old(pool)@.returning_slot(old(self).slot()),
                    old(self).conn(),
                )
                &&& final(pool)@.leased() == old(pool)@.leased().remove(
                    old(pool)@.returning_slot(old(self).slot()),
                )
            },
            !returned ==> *final(self) == *old(self) && *final(pool) == *old(pool),
    {
        proof {
            lemma_room_is_a_leased_slot(pool@);
        }
        if self.conn.is_some() && pool.has_room() {
            let conn = self.conn.take().unwrap();
            proof {
                lemma_release_returns_one(
                    pool@,
                    pool@.returning_slot(self.slot@),
                    conn,
                );
            }
            pool.take_back(conn, Ghost(self.slot@));
            true
        } else {
            false
        }
    }
}

impl<C: Connection> PooledPostgresConnection<C> {
    /// Prepares `query` on the connection, as `Connection::try_prepare` does.
    pub fn try_prepare<'a>(&'a self, query: &str) -> (r: Result<C::Statement<'a>, C::DbError>)
        requires
            self.held(),
        ensures
            call_ensures(C::try_prepare, (&self.conn(), query), r),
    {
        self.conn.as_ref().unwrap().try_prepare(query)
    }

    /// Prepares `query` on the connection, as `Connection::prepare` does.
    pub fn prepare<'a>(&'a self, query: &str) -> (statement: C::Statement<'a>)
        requires
            self.held(),
        ensures
            call_ensures(C::prepare, (&self.conn(), query), statement),
    {
        self.conn.as_ref().unwrap().prepare(query)
    }

    /// Runs `query` on the connection, as `Connection::try_update` does.
    pub fn try_update(&self, query: &str, params: &[C::Param]) -> (r: Result<usize, C::DbError>)
        requires
            self.held(),
        ensures
            call_ensures(C::try_update, (&self.conn(), query, params), r),
    {
        self.conn.as_ref().unwrap().try_update(query, params)
    }

    /// Runs `query` on the connection, as `Connection::update` does.
    pub fn update(&self, query: &str, params: &[C::Param]) -> (rows: usize)
        requires
            self.held(),
        ensures
            call_ensures(C::update, (&self.conn(), query, params), rows),
    {
        self.conn.as_ref().unwrap().update(query, params)
    }

    /// Runs `blk` in a transaction on the connection, as
    /// `Transact::in_transaction` does.
    pub fn in_transaction<T, F: FnOnce(&C::Transaction) -> T>(&self, blk: F) -> (r: T)
        where C: Transact<T, F>
        requires
            self.held(),
            forall|tx: &C::Transaction| call_requires(blk, (tx,)),
        ensures
            call_ensures(<C as Transact<T, F>>::in_transaction, (&self.conn(), blk), r),
    {
        self.conn.as_ref().unwrap().in_transaction(blk)
    }
}

} // verus!

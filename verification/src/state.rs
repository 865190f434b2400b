//! A pool while it is being built.

use vstd::prelude::*;
use crate::connection::{connect_result, Connection};

verus! {

/// The endpoint of a pool and the connections opened to it so far.
///
/// This is the pool before any caller has seen it: connections only come in,
/// one per successful attempt, and none goes out.
pub struct InnerConnectionPool<C> {
    url: String,
    pool: Vec<C>,
}

impl<C> InnerConnectionPool<C> {
    /// The endpoint that connections are opened to.
    pub closed spec fn url(&self) -> Seq<char> {
        self.url@
    }

    /// The connections opened so far, oldest first.
    pub closed spec fn idle(&self) -> Seq<C> {
        self.pool@
    }

    /// A pool for the endpoint `url` with no connection in it yet.
    pub fn new(url: &str) -> (state: Self)
        ensures
            state.url() == url@,
            state.idle() == Seq::<C>::empty(),
    {
        InnerConnectionPool { url: url.to_owned(), pool: Vec::new() }
    }

    /// The endpoint that connections are opened to.
    pub fn endpoint(&self) -> (url: &str)
        ensures
            url@ == self.url(),
    {
        self.url.as_str()
    }

    /// How many connections were opened so far.
    pub fn len(&self) -> (n: usize)
        ensures
            n == self.idle().len(),
    {
        self.pool.len()
    }

    /// Takes in the outcome of one attempt to open a connection.
    ///
    /// A connection that was opened joins the pool behind the others. A
    /// failure is handed back and leaves the pool as it was.
    pub fn accept<E>(&mut self, attempt: Result<C, E>) -> (err: Option<E>)
        ensures
            match attempt {
                Ok(conn) => {
                    &&& err is None
                    &&& final(self).url() == old(self).url()
                    &&& final(self).idle() == old(self).idle().push(conn)
                },
                Err(e) => err == Some(e) && *final(self) == *old(self),
            },
    {
        match attempt {
            Ok(conn) => {
                self.pool.push(conn);
                None
            },
            Err(e) => Some(e),
        }
    }

    /// Gives up the last connection, if there is one.
    pub(crate) fn pop(&mut self) -> (conn: Option<C>)
        ensures
            final(self).url() == old(self).url(),
            match conn {
                Some(c) => {
                    &&& old(self).idle().len() > 0
                    &&& c == old(self).idle().last()
                    &&& final(self).idle() == old(self).idle().drop_last()
                },
                None => old(self).idle().len() == 0 && final(self).idle() == old(self).idle(),
            },
    {
        self.pool.pop()
    }

    /// Puts `conn` behind the others.
    pub(crate) fn push(&mut self, conn: C)
        ensures
            final(self).url() == old(self).url(),
            final(self).idle() == old(self).idle().push(conn),
    {
        self.pool.push(conn);
    }
}

impl<C: Connection> InnerConnectionPool<C> {
    /// Tries to open one more connection to the endpoint.
    ///
    /// On success the new connection joins the pool behind the others and
    /// `None` comes back. On failure the error comes back and the pool is as
    /// it was.
    pub fn new_connection(&mut self) -> (err: Option<C::ConnectError>)
        ensures
            match err {
                None => {
                    &&& final(self).url() == old(self).url()
                    &&& final(self).idle() == old(self).idle().push(final(self).idle().last())
                    &&& connect_result::<C>(old(self).url(), Ok(final(self).idle().last()))
                },
                Some(e) => {
                    &&& *final(self) == *old(self)
                    &&& connect_result::<C>(old(self).url(), Err(e))
                },
            },
    {
        let attempt = C::try_connect(self.url.as_str());
        self.accept(attempt)
    }
}

} // verus!

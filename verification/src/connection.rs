//! What the pool needs from a database connection.

use vstd::prelude::*;

verus! {

/// A database connection, as far as the pool is concerned.
///
/// The pool opens connections with `try_connect` and hands every other call
/// through to the connection that a lease holds. It never looks at what comes
/// back: errors are the connection's own and are passed on as they are.
pub trait Connection: Sized {
    /// Why a connection could not be opened.
    type ConnectError;

    /// Why a statement could not be prepared or run.
    type DbError;

    /// A prepared statement; it borrows the connection that prepared it.
    type Statement<'a> where Self: 'a;

    /// An open transaction on the connection.
    type Transaction;

    /// A value bound to a placeholder of a statement.
    type Param;

    /// Opens one connection to the endpoint that `url` names.
    fn try_connect(url: &str) -> Result<Self, Self::ConnectError>;

    /// Prepares `query`, or says why it could not.
    fn try_prepare<'a>(&'a self, query: &str) -> Result<Self::Statement<'a>, Self::DbError>;

    /// Prepares `query`; a connection that cannot does not return.
    fn prepare<'a>(&'a self, query: &str) -> Self::Statement<'a>;

    /// Runs `query` with `params` and gives the number of rows it changed,
    /// or says why it could not.
    fn try_update(&self, query: &str, params: &[Self::Param]) -> Result<usize, Self::DbError>;

    /// Runs `query` with `params` and gives the number of rows it changed;
    /// a connection that cannot does not return.
    fn update(&self, query: &str, params: &[Self::Param]) -> usize;
}

/// A connection that runs blocks of type `F`, which give a `T`, inside a
/// transaction.
///
/// A connection type has this for every block at once, by one `impl` with
/// `T` and `F` as its parameters.
pub trait Transact<T, F: FnOnce(&Self::Transaction) -> T>: Connection {
    /// Runs `blk` inside a transaction and gives back what `blk` returned.
    fn in_transaction(&self, blk: F) -> T
        requires
            forall|tx: &Self::Transaction| call_requires(blk, (tx,)),
    ;
}

/// `attempt` is something that `C::try_connect` may answer when it is asked
/// for the endpoint that reads `url`.
pub open spec fn connect_result<C: Connection>(
    url: Seq<char>,
    attempt: Result<C, C::ConnectError>,
) -> bool {
    exists|endpoint: &str| endpoint@ == url && call_ensures(C::try_connect, (endpoint,), attempt)
}

/// Opening a connection to the endpoint that reads `url` cannot fail.
pub open spec fn always_connects<C: Connection>(url: Seq<char>) -> bool {
    forall|attempt: Result<C, C::ConnectError>| #[trigger]
        connect_result::<C>(url, attempt) ==> attempt is Ok
}

/// Opening a connection to the endpoint that reads `url` cannot succeed.
pub open spec fn never_connects<C: Connection>(url: Seq<char>) -> bool {
    forall|attempt: Result<C, C::ConnectError>| #[trigger]
        connect_result::<C>(url, attempt) ==> attempt is Err
}

} // verus!

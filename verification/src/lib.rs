//! A fixed-size pool of database connections.
//!
//! The pool opens all of its connections when it is built and never opens
//! another. A caller takes a connection out as a lease and hands it back when
//! done; while every connection is out, a caller has to wait. The pool keeps
//! the books: which connections are idle, which are leased, and that the two
//! together are always exactly the connections it was built with.
//!
//! Nothing here locks or blocks. Every operation that changes the pool takes
//! it by `&mut`, so a program that shares a pool between threads keeps it
//! behind its own lock and waits on its own condition whenever
//! `get_connection` answers `None`.

pub mod connection;
pub mod lease;
pub mod ledger;
pub mod pool;
pub mod state;

pub use connection::{Connection, Transact};
pub use lease::PooledPostgresConnection;
pub use ledger::PoolView;
pub use pool::PostgresConnectionPool;
pub use state::InnerConnectionPool;

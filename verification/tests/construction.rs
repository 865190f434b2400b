//! Building a pool: how many connections are opened, and what a failure does.

use postgres_pool::Connection;
use postgres_pool::Transact;
use postgres_pool::InnerConnectionPool;
use postgres_pool::PostgresConnectionPool;
use std::sync::Mutex;

/// What the fake server has seen, one line per endpoint.
struct Endpoint {
    url: String,
    attempts: usize,
    open: usize,
}

static SERVER: Mutex<Vec<Endpoint>> = Mutex::new(Vec::new());

fn with_endpoint<R>(url: &str, f: impl FnOnce(&mut Endpoint) -> R) -> R {
    let mut server = SERVER.lock().unwrap();
    if !server.iter().any(|e| e.url == url) {
        server.push(Endpoint { url: url.to_string(), attempts: 0, open: 0 });
    }
    f(server.iter_mut().find(|e| e.url == url).unwrap())
}

fn attempts(url: &str) -> usize {
    with_endpoint(url, |e| e.attempts)
}

fn open(url: &str) -> usize {
    with_endpoint(url, |e| e.open)
}

/// A connection to the fake server. An endpoint whose address ends in
/// `?refuse=N` refuses its N-th attempt and every later one.
#[derive(Debug)]
struct Conn {
    url: String,
    serial: usize,
}

#[derive(Debug, PartialEq)]
struct Refused {
    attempt: usize,
}

impl Drop for Conn {
    fn drop(&mut self) {
        with_endpoint(&self.url, |e| e.open -= 1);
    }
}

impl Connection for Conn {
    type ConnectError = Refused;
    type DbError = String;
    type Statement<'a> = ();
    type Transaction = ();
    type Param = i64;

    fn try_connect(url: &str) -> Result<Conn, Refused> {
        let refuse_from = url.rsplit_once("?refuse=").map(|(_, n)| n.parse::<usize>().unwrap());
        with_endpoint(url, |e| {
            e.attempts += 1;
            match refuse_from {
                Some(n) if e.attempts >= n => Err(Refused { attempt: e.attempts }),
                _ => {
                    e.open += 1;
                    Ok(Conn { url: url.to_string(), serial: e.attempts })
                }
            }
        })
    }

    fn try_prepare<'a>(&'a self, _query: &str) -> Result<(), String> {
        Ok(())
    }

    fn prepare<'a>(&'a self, _query: &str) {}

    fn try_update(&self, _query: &str, _params: &[i64]) -> Result<usize, String> {
        Ok(0)
    }

    fn update(&self, _query: &str, _params: &[i64]) -> usize {
        self.serial
    }
}

impl<T, F: FnOnce(&()) -> T> Transact<T, F> for Conn {
    fn in_transaction(&self, blk: F) -> T {
        blk(&())
    }
}

#[test]
fn try_new_opens_exactly_pool_size_connections() {
    let url = "fake://construction/exact";
    let pool = PostgresConnectionPool::<Conn>::try_new(url, 4).unwrap();
    assert_eq!(attempts(url), 4);
    assert_eq!(open(url), 4);
    assert_eq!(pool.size(), 4);
    assert_eq!(pool.idle_count(), 4);
    assert_eq!(pool.leased_count(), 0);
    assert_eq!(pool.url(), url);
}

#[test]
fn try_new_with_capacity_two_has_two_idle() {
    let url = "fake://construction/two";
    let pool = PostgresConnectionPool::<Conn>::try_new(url, 2).unwrap();
    assert_eq!(pool.idle_count(), 2);
    assert_eq!(pool.size(), 2);
}

#[test]
fn try_new_fails_when_second_attempt_fails() {
    let url = "fake://construction/second?refuse=2";
    let r = PostgresConnectionPool::<Conn>::try_new(url, 3);
    match r {
        Ok(_) => panic!("a pool came out of a failed construction"),
        Err(e) => assert_eq!(e, Refused { attempt: 2 }),
    }
    // The third connection was never asked for, and the first did not stay open.
    assert_eq!(attempts(url), 2);
    assert_eq!(open(url), 0);
}

#[test]
fn try_new_fails_when_first_attempt_fails() {
    let url = "fake://construction/first?refuse=1";
    let r = PostgresConnectionPool::<Conn>::try_new(url, 1);
    assert_eq!(r.err(), Some(Refused { attempt: 1 }));
    assert_eq!(attempts(url), 1);
    assert_eq!(open(url), 0);
}

#[test]
fn try_new_fails_when_last_attempt_fails() {
    let url = "fake://construction/last?refuse=3";
    let r = PostgresConnectionPool::<Conn>::try_new(url, 3);
    assert_eq!(r.err(), Some(Refused { attempt: 3 }));
    assert_eq!(attempts(url), 3);
    assert_eq!(open(url), 0);
}

#[test]
fn try_new_succeeds_when_the_failure_lies_beyond_pool_size() {
    let url = "fake://construction/beyond?refuse=4";
    let pool = PostgresConnectionPool::<Conn>::try_new(url, 3).unwrap();
    assert_eq!(pool.idle_count(), 3);
    assert_eq!(attempts(url), 3);
}

#[test]
fn try_new_with_capacity_zero_asks_for_no_connection() {
    let url = "fake://construction/zero?refuse=1";
    let mut pool = PostgresConnectionPool::<Conn>::try_new(url, 0).unwrap();
    assert_eq!(attempts(url), 0);
    assert_eq!(pool.size(), 0);
    assert_eq!(pool.idle_count(), 0);
    assert_eq!(pool.leased_count(), 0);
    for _ in 0..5 {
        assert!(pool.get_connection().is_none());
    }
    assert_eq!(pool.idle_count(), 0);
}

#[test]
fn new_builds_the_pool_that_try_new_builds() {
    let url = "fake://construction/new";
    let pool = PostgresConnectionPool::<Conn>::new(url, 3);
    assert_eq!(attempts(url), 3);
    assert_eq!(pool.size(), 3);
    assert_eq!(pool.idle_count(), 3);
    assert_eq!(pool.url(), url);
}

#[test]
fn dropping_the_pool_closes_its_connections() {
    let url = "fake://construction/drop";
    let pool = PostgresConnectionPool::<Conn>::try_new(url, 2).unwrap();
    assert_eq!(open(url), 2);
    drop(pool);
    assert_eq!(open(url), 0);
}

#[test]
fn new_state_is_empty() {
    let state = InnerConnectionPool::<Conn>::new("fake://construction/state");
    assert_eq!(state.len(), 0);
    assert_eq!(state.endpoint(), "fake://construction/state");
}

#[test]
fn new_connection_adds_one_on_success() {
    let url = "fake://construction/step";
    let mut state = InnerConnectionPool::<Conn>::new(url);
    assert!(state.new_connection().is_none());
    assert_eq!(state.len(), 1);
    assert!(state.new_connection().is_none());
    assert_eq!(state.len(), 2);
    assert_eq!(attempts(url), 2);
}

#[test]
fn new_connection_hands_back_the_error_and_adds_nothing() {
    let url = "fake://construction/step-fails?refuse=2";
    let mut state = InnerConnectionPool::<Conn>::new(url);
    assert!(state.new_connection().is_none());
    assert_eq!(state.new_connection(), Some(Refused { attempt: 2 }));
    assert_eq!(state.len(), 1);
    assert_eq!(state.new_connection(), Some(Refused { attempt: 3 }));
    assert_eq!(state.len(), 1);
}

#[test]
fn accept_takes_in_a_connection() {
    let url = "fake://construction/accept";
    let mut state = InnerConnectionPool::<Conn>::new(url);
    let attempt = Conn::try_connect(url);
    assert_eq!(state.accept(attempt), None);
    assert_eq!(state.len(), 1);
}

#[test]
fn accept_hands_back_a_failure_unchanged() {
    let url = "fake://construction/accept-fails";
    let mut state = InnerConnectionPool::<Conn>::new(url);
    assert_eq!(state.accept(Conn::try_connect(url)), None);
    let failure: Result<Conn, Refused> = Err(Refused { attempt: 7 });
    assert_eq!(state.accept(failure), Some(Refused { attempt: 7 }));
    assert_eq!(state.len(), 1);
    assert_eq!(state.endpoint(), url);
}

#[test]
fn seal_fixes_the_capacity_at_what_was_opened() {
    let url = "fake://construction/seal";
    let mut state = InnerConnectionPool::<Conn>::new(url);
    assert!(state.new_connection().is_none());
    assert!(state.new_connection().is_none());
    assert!(state.new_connection().is_none());
    let mut pool = PostgresConnectionPool::seal(state);
    assert_eq!(pool.size(), 3);
    assert_eq!(pool.idle_count(), 3);
    assert_eq!(pool.url(), url);
    // The connection opened last goes out first.
    let mut lease = pool.get_connection().unwrap();
    assert_eq!(lease.update("", &[]), 3);
    assert_eq!(pool.idle_count(), 2);
    assert!(lease.release(&mut pool));
    assert_eq!(pool.idle_count(), 3);
}

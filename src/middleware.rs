use std::sync::Arc;
use vstd::prelude::*;
use vstd::rwlock::{RwLock, RwLockPredicate};

use crate::counters::{count_of, Counters};

verus! {

/// The counter key of a request whose origin is `origin`: the origin itself, or
/// `"unknown"` where the origin is not available.
pub open spec fn identity_of(origin: Option<String>) -> Seq<char> {
    match origin {
        Some(s) => s@,
        None => "unknown"@,
    }
}

/// Derives the counter key of a request from its origin (its peer address,
/// written out); an unavailable origin falls back to `"unknown"`.
pub fn client_identity(origin: Option<String>) -> (r: String)
    ensures
        r@ == identity_of(origin),
{
    match origin {
        Some(s) => s,
        None => "unknown".to_owned(),
    }
}

/// What the lock round the shared table keeps: a well-formed table.
pub struct WellFormed;

impl RwLockPredicate<Counters> for WellFormed {
    open spec fn inv(self, c: Counters) -> bool {
        c.wf()
    }
}

/// The process-wide table, safe to share between threads: every access takes
/// the lock for one lookup or one update and releases it before returning.
pub struct SharedCounters {
    lock: RwLock<Counters, WellFormed>,
}

impl SharedCounters {
    /// A shared table with no key in it.
    pub fn new() -> (r: SharedCounters) {
        SharedCounters { lock: RwLock::new(Counters::new(), Ghost(WellFormed)) }
    }

    /// Records one more request from `key` and returns the count that this
    /// update left, all under one write lock. A count that has reached
    /// `u64::MAX` stays there.
    pub fn record(&self, key: &str) -> (r: u64)
        ensures
            r >= 1,
    {
        let (mut table, handle) = self.lock.acquire_write();
        if table.get(key) < u64::MAX {
            table.increase(key);
        }
        let r = table.get(key);
        handle.release_write(table);
        r
    }

    /// The count recorded for `key`, zero where it has none. Increments made
    /// concurrently by other callers may or may not be seen.
    pub fn get(&self, key: &str) -> (r: u64) {
        let handle = self.lock.acquire_read();
        let r = handle.borrow().get(key);
        handle.release_read();
        r
    }
}

/// Relies on `Arc::clone`: the new pointer points to the same shared table.
#[verifier::external_body]
fn share(a: &Arc<SharedCounters>) -> (r: Arc<SharedCounters>)
    ensures
        r == *a,
{
    Arc::clone(a)
}

/// Builds an interceptor for each chain from the next stage of that chain; every
/// interceptor it builds shares its one table.
pub struct CountersTransform {
    counters: Arc<SharedCounters>,
}

impl CountersTransform {
    /// A factory with a fresh, empty shared table.
    pub fn new() -> (r: CountersTransform) {
        CountersTransform { counters: Arc::new(SharedCounters::new()) }
    }

    /// The table that this factory hands to every interceptor it builds.
    pub closed spec fn store(&self) -> SharedCounters {
        *self.counters
    }

    /// The shared table.
    pub fn counters(&self) -> (r: &SharedCounters)
        ensures
            *r == self.store(),
    {
        &self.counters
    }

    /// Binds the shared table and `service`, the next stage of the chain, into
    /// an interceptor. It cannot fail.
    pub fn new_transform<S>(&self, service: S) -> (r: CountersMiddleware<S>)
        ensures
            r.next_service() == service,
            r.store() == self.store(),
    {
        CountersMiddleware { counters: share(&self.counters), service }
    }
}

/// One stage of a chain: counts each request under its client identity, then
/// hands the request to the next stage and returns what it returned.
pub struct CountersMiddleware<S> {
    counters: Arc<SharedCounters>,
    service: S,
}

impl<S> CountersMiddleware<S> {
    /// The next stage that this interceptor was bound to.
    pub closed spec fn next_service(&self) -> S {
        self.service
    }

    /// The table that this interceptor records into.
    pub closed spec fn store(&self) -> SharedCounters {
        *self.counters
    }

    /// The next stage.
    pub fn service(&self) -> (r: &S)
        ensures
            *r == self.next_service(),
    {
        &self.service
    }

    /// The shared table.
    pub fn counters(&self) -> (r: &SharedCounters)
        ensures
            *r == self.store(),
    {
        &self.counters
    }

    /// Handles one request that came from `origin`: records it under its client
    /// identity, passes that identity and the count the update left to
    /// `observe`, then calls `next` with the next stage and the request, and
    /// returns its result as it is, success or failure. The lock is released
    /// before `observe` and `next` run, so the count stays recorded whatever
    /// they do.
    pub fn call<Q, T, L: FnOnce(&str, u64), F: FnOnce(&S, Q) -> T>(
        &self,
        origin: Option<String>,
        req: Q,
        observe: L,
        next: F,
    ) -> (r: T)
        requires
            forall|k: &str, c: u64| observe.requires((k, c)),
            next.requires((&self.next_service(), req)),
        ensures
            next.ensures((&self.next_service(), req), r),
    {
        let key = client_identity(origin);
        let count = self.counters.record(key.as_str());
        observe(key.as_str(), count);
        next(&self.service, req)
    }
}

} // verus!

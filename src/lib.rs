//! Counts the requests seen from each client identity as they pass through a
//! chain of request handlers.
//!
//! `counters` holds the table from identity to count and the laws it obeys;
//! `middleware` holds the shared, lock-guarded table, the factory that binds it
//! to the next stage of a chain, and the interceptor that counts each request
//! before handing it on unchanged.

pub mod counters;
pub mod middleware;

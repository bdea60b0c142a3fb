use std::sync::Arc;

use actix_ex::middleware::{client_identity, CountersTransform, SharedCounters};

struct Echo;

impl Echo {
    fn handle(&self, req: u32) -> Result<u32, String> {
        Ok(req + 1)
    }
}

struct Failing;

impl Failing {
    fn handle(&self, req: u32) -> Result<u32, String> {
        Err(format!("refused {}", req))
    }
}

#[test]
fn identity_is_the_origin() {
    assert_eq!(client_identity(Some("10.0.0.1:5000".to_string())), "10.0.0.1:5000");
}

#[test]
fn missing_origin_is_unknown() {
    assert_eq!(client_identity(None), "unknown");
    assert_eq!(client_identity(None), client_identity(None));
}

#[test]
fn shared_record_returns_running_count() {
    let s = SharedCounters::new();
    assert_eq!(s.get("a"), 0);
    assert_eq!(s.record("a"), 1);
    assert_eq!(s.record("a"), 2);
    assert_eq!(s.record("b"), 1);
    assert_eq!(s.get("a"), 2);
    assert_eq!(s.get("b"), 1);
}

#[test]
fn success_passes_through_and_counts_once() {
    let factory = CountersTransform::new();
    let m = factory.new_transform(Echo);
    let r = m.call(Some("10.0.0.1".to_string()), 41, |_k: &str, _c: u64| {}, |s: &Echo, q: u32| s.handle(q));
    assert_eq!(r, Ok(42));
    assert_eq!(factory.counters().get("10.0.0.1"), 1);
    assert_eq!(m.counters().get("10.0.0.1"), 1);
}

#[test]
fn failure_passes_through_and_still_counts() {
    let factory = CountersTransform::new();
    let m = factory.new_transform(Failing);
    let r = m.call(Some("10.0.0.9".to_string()), 7, |_k: &str, _c: u64| {}, |s: &Failing, q: u32| s.handle(q));
    assert_eq!(r, Err("refused 7".to_string()));
    assert_eq!(factory.counters().get("10.0.0.9"), 1);
}

#[test]
fn missing_origin_counts_under_unknown() {
    let factory = CountersTransform::new();
    let m = factory.new_transform(Echo);
    let a = m.call(None, 1, |_k: &str, _c: u64| {}, |s: &Echo, q: u32| s.handle(q));
    let b = m.call(None, 2, |_k: &str, _c: u64| {}, |s: &Echo, q: u32| s.handle(q));
    assert_eq!(a, Ok(2));
    assert_eq!(b, Ok(3));
    assert_eq!(factory.counters().get("unknown"), 2);
}

#[test]
fn observer_sees_key_and_count() {
    let factory = CountersTransform::new();
    let m = factory.new_transform(Echo);
    let seen = std::cell::RefCell::new(Vec::new());
    for q in 0..3 {
        m.call(
            Some("10.0.0.1".to_string()),
            q,
            |k: &str, c: u64| seen.borrow_mut().push((k.to_string(), c)),
            |s: &Echo, q: u32| s.handle(q),
        )
        .unwrap();
    }
    m.call(None, 0, |k: &str, c: u64| seen.borrow_mut().push((k.to_string(), c)), |s: &Echo, q: u32| s.handle(q))
        .unwrap();
    assert_eq!(
        seen.into_inner(),
        vec![
            ("10.0.0.1".to_string(), 1),
            ("10.0.0.1".to_string(), 2),
            ("10.0.0.1".to_string(), 3),
            ("unknown".to_string(), 1),
        ]
    );
}

#[test]
fn chains_built_by_one_factory_share_the_table() {
    let factory = CountersTransform::new();
    let first = factory.new_transform(Echo);
    let second = factory.new_transform(Echo);
    for q in 0..3 {
        first.call(Some("10.0.0.1".to_string()), q, |_k: &str, _c: u64| {}, |s: &Echo, q: u32| s.handle(q)).unwrap();
    }
    second.call(Some("10.0.0.2".to_string()), 0, |_k: &str, _c: u64| {}, |s: &Echo, q: u32| s.handle(q)).unwrap();
    assert_eq!(factory.counters().get("10.0.0.1"), 3);
    assert_eq!(factory.counters().get("10.0.0.2"), 1);
    assert_eq!(second.counters().get("10.0.0.1"), 3);
}

#[test]
fn separate_factories_keep_separate_tables() {
    let one = CountersTransform::new();
    let two = CountersTransform::new();
    one.new_transform(Echo)
        .call(Some("h".to_string()), 0, |_k: &str, _c: u64| {}, |s: &Echo, q: u32| s.handle(q))
        .unwrap();
    assert_eq!(one.counters().get("h"), 1);
    assert_eq!(two.counters().get("h"), 0);
}

#[test]
fn service_is_the_bound_stage() {
    let factory = CountersTransform::new();
    let m = factory.new_transform(Echo);
    assert_eq!(m.service().handle(9), Ok(10));
    assert_eq!(factory.counters().get("unknown"), 0);
}

#[test]
fn shared_handles_count_interleaved_writers() {
    let shared = Arc::new(SharedCounters::new());
    let handles: Vec<Arc<SharedCounters>> = (0..8).map(|_| Arc::clone(&shared)).collect();
    for _ in 0..500 {
        for (w, s) in handles.iter().enumerate() {
            s.record("same");
            s.record(&format!("w{}", w));
        }
    }
    assert_eq!(shared.get("same"), 4000);
    for w in 0..8 {
        assert_eq!(shared.get(&format!("w{}", w)), 500);
    }
}

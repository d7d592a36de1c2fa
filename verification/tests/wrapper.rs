use deadpool_postgres::manager::Manager;
use deadpool_postgres::registry::StatementCaches;
use deadpool_postgres::wrapper::{ClientWrapper, IsolationLevel, Transaction};

/// The cache-aware preparation flow with a stub connection: a cache miss
/// costs one round trip (counted), a hit costs none.
fn prepare_counting(
    caches: &mut StatementCaches<u64>,
    cache_id: usize,
    query: &str,
    types: &[u32],
    round_trips: &mut u32,
    fresh_handle: u64,
) -> u64 {
    let wrapper = ClientWrapper::new(cache_id);
    if let Some(cached) = wrapper.prepare_typed(&*caches, query, types) {
        return *cached;
    }
    *round_trips += 1; // the stub stands in for the wire prepare
    wrapper.insert_prepared(caches, query, types, fresh_handle);
    fresh_handle
}

#[test]
fn second_prepare_returns_the_cached_handle_without_a_round_trip() {
    let mut m: Manager<u64> = Manager::new();
    let id = m.create();
    let mut round_trips: u32 = 0;
    let first = prepare_counting(
        &mut m.statement_caches,
        id,
        "SELECT $1",
        &[23],
        &mut round_trips,
        77,
    );
    assert_eq!(first, 77);
    assert_eq!(round_trips, 1);
    let second = prepare_counting(
        &mut m.statement_caches,
        id,
        "SELECT $1",
        &[23],
        &mut round_trips,
        78,
    );
    assert_eq!(second, first);
    assert_eq!(round_trips, 1);
}

#[test]
fn prepare_without_types_is_prepare_typed_with_none() {
    let mut m: Manager<u64> = Manager::new();
    let id = m.create();
    let w = ClientWrapper::new(id);
    assert!(w.prepare(&m.statement_caches, "SELECT 1").is_none());
    w.insert_prepared(&mut m.statement_caches, "SELECT 1", &[], 5);
    assert_eq!(w.prepare(&m.statement_caches, "SELECT 1"), Some(&5));
    assert_eq!(w.prepare_typed(&m.statement_caches, "SELECT 1", &[]), Some(&5));
    assert_eq!(w.prepare_typed(&m.statement_caches, "SELECT 1", &[23]), None);
}

#[test]
fn transaction_shares_the_parent_cache_both_ways() {
    let mut m: Manager<u64> = Manager::new();
    let id = m.create();
    let w = ClientWrapper::new(id);
    // The wrapper already has statement X cached.
    w.insert_prepared(&mut m.statement_caches, "SELECT x", &[], 1);
    let txn = w.transaction();
    // The transaction retrieves X without a round trip.
    assert_eq!(txn.prepare(&m.statement_caches, "SELECT x"), Some(&1));
    // A statement prepared inside the transaction...
    txn.insert_prepared(&mut m.statement_caches, "SELECT y", &[25], 2);
    drop(txn); // ...the transaction commits and its handle is consumed...
    // ...stays visible through the wrapper's cache.
    assert_eq!(
        w.prepare_typed(&m.statement_caches, "SELECT y", &[25]),
        Some(&2)
    );
}

#[test]
fn nested_transactions_borrow_the_same_cache_transitively() {
    let mut m: Manager<u64> = Manager::new();
    let id = m.create();
    let w = ClientWrapper::new(id);
    let outer: Transaction = w.transaction();
    let inner: Transaction = outer.transaction();
    assert_eq!(inner.cache_id, w.cache_id);
    inner.insert_prepared(&mut m.statement_caches, "SELECT z", &[], 9);
    assert_eq!(outer.prepare(&m.statement_caches, "SELECT z"), Some(&9));
    assert_eq!(w.prepare(&m.statement_caches, "SELECT z"), Some(&9));
}

#[test]
fn transaction_builder_accumulates_settings_and_keeps_the_cache() {
    let w = ClientWrapper::new(3);
    let b = w.build_transaction();
    assert_eq!(b.isolation_level, None);
    assert_eq!(b.read_only, None);
    assert_eq!(b.deferrable, None);
    let b = b
        .isolation_level(IsolationLevel::Serializable)
        .read_only(true)
        .deferrable(true);
    assert_eq!(b.isolation_level, Some(IsolationLevel::Serializable));
    assert_eq!(b.read_only, Some(true));
    assert_eq!(b.deferrable, Some(true));
    assert_eq!(b.cache_id, 3);
    let txn = b.start();
    assert_eq!(txn.cache_id, 3);
}

#[test]
fn builder_setters_do_not_disturb_each_other() {
    let w = ClientWrapper::new(0);
    let b = w.build_transaction().read_only(false);
    let b = b.isolation_level(IsolationLevel::RepeatableRead);
    assert_eq!(b.read_only, Some(false));
    let b = b.deferrable(false);
    assert_eq!(b.isolation_level, Some(IsolationLevel::RepeatableRead));
    assert_eq!(b.read_only, Some(false));
    assert_eq!(b.deferrable, Some(false));
}

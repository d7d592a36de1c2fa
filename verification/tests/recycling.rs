use deadpool_postgres::manager::{
    recycle_finish, Manager, ManagerConfig, RecycleDecision, RecycleError, RecyclingMethod,
    CLEAN_QUERY,
};

fn manager_with(method: RecyclingMethod) -> Manager<u64> {
    Manager::from_config(ManagerConfig { recycling_method: method })
}

#[test]
fn closed_connection_fails_recycling_under_every_method() {
    let methods = vec![
        RecyclingMethod::Fast,
        RecyclingMethod::Verified,
        RecyclingMethod::Clean,
        RecyclingMethod::Custom("SELECT 42".to_string()),
    ];
    for method in methods {
        let m = manager_with(method);
        assert!(matches!(m.recycle(true), RecycleDecision::Closed));
    }
}

#[test]
fn fast_recycling_never_probes_and_reuses_open_connections() {
    let m = manager_with(RecyclingMethod::Fast);
    let mut probes: u32 = 0;
    match m.recycle(false) {
        RecycleDecision::Reuse => {}
        RecycleDecision::Probe(_) => {
            // A probe would be a query against the stub connection.
            probes += 1;
        }
        RecycleDecision::Closed => panic!("open connection reported closed"),
    }
    assert_eq!(probes, 0);
}

#[test]
fn verified_recycling_probes_with_the_noop_query() {
    let m = manager_with(RecyclingMethod::Verified);
    match m.recycle(false) {
        RecycleDecision::Probe(sql) => assert_eq!(sql, ""),
        _ => panic!("expected a probe"),
    }
}

#[test]
fn failing_probe_fails_recycling_with_that_error() {
    let m = manager_with(RecyclingMethod::Verified);
    assert!(matches!(m.recycle(false), RecycleDecision::Probe(_)));
    // The stub connection reports the probe query as failed.
    let probe_outcome: Result<(), String> = Err("connection reset".to_string());
    match recycle_finish(probe_outcome) {
        Err(RecycleError::Backend(e)) => assert_eq!(e, "connection reset"),
        _ => panic!("recycle must fail with the probe's own error"),
    }
    // A successful probe lets the connection through.
    let ok: Result<(), String> = Ok(());
    assert!(recycle_finish(ok).is_ok());
}

#[test]
fn each_method_designates_its_probe_query() {
    assert_eq!(RecyclingMethod::Fast.query(), None);
    assert_eq!(RecyclingMethod::Verified.query(), Some(""));
    assert_eq!(RecyclingMethod::Clean.query(), Some(CLEAN_QUERY));
    let custom = RecyclingMethod::Custom("DISCARD ALL".to_string());
    assert_eq!(custom.query(), Some("DISCARD ALL"));
}

#[test]
fn default_configuration_recycles_fast() {
    let config = ManagerConfig::default();
    assert!(matches!(config.recycling_method, RecyclingMethod::Fast));
    let m: Manager<u64> = Manager::new();
    assert!(matches!(m.recycle(false), RecycleDecision::Reuse));
}

#[test]
fn create_registers_an_empty_cache_per_connection() {
    let mut m: Manager<u64> = Manager::new();
    let a = m.create();
    let b = m.create();
    assert_ne!(a, b);
    assert_eq!(m.statement_caches.cache_size(a), 0);
    assert_eq!(m.statement_caches.cache_size(b), 0);
    m.statement_caches.cache_insert(a, "SELECT 1", &[], 1);
    assert_eq!(m.statement_caches.cache_size(a), 1);
    assert_eq!(m.statement_caches.cache_size(b), 0);
}

#[test]
fn detach_unregisters_exactly_one_connection() {
    let mut m: Manager<u64> = Manager::new();
    let a = m.create();
    let b = m.create();
    m.statement_caches.cache_insert(a, "SELECT 1", &[], 1);
    m.statement_caches.cache_insert(b, "SELECT 2", &[], 2);
    let detached = m.detach(a).expect("was attached");
    assert_eq!(detached.size(), 1);
    m.statement_caches.clear();
    assert_eq!(detached.size(), 1);
    assert_eq!(m.statement_caches.cache_size(b), 0);
}

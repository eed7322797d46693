use nitinol_sqlite_adaptor::errors::StoreError;
use nitinol_sqlite_adaptor::location::prepare;

#[test]
fn setup_accepts_sqlite_locations() {
    assert!(prepare("sqlite://:memory:", None, None).is_ok());
    assert!(prepare("sqlite::memory:", None, None).is_ok());
    assert!(prepare("sqlite://journal.db", None, None).is_ok());
}

#[test]
fn setup_rejects_a_malformed_location_as_a_setup_failure() {
    let err = prepare("sqlite://journal.db?mode=bogus", None, None)
        .err()
        .expect("an unknown mode must be rejected");
    assert!(matches!(err, StoreError::Setup(_)));
    let err = prepare("sqlite://journal.db?junk=1", None, None)
        .err()
        .expect("an unknown query parameter must be rejected");
    assert!(matches!(err, StoreError::Setup(_)));
}

#[test]
fn setup_carries_the_resolved_pool_configuration() {
    let plan = prepare("sqlite://:memory:", Some("1234".to_owned()), Some("3".to_owned()))
        .expect("a valid location must be accepted");
    assert_eq!(plan.config.acquire_timeout_ms, 1234);
    assert_eq!(plan.config.max_connections, 3);
}

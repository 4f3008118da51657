use pos_backend::errors::ServiceError;
use pos_backend::services::db_service::{
    pool_settings, DbConnectionManager, PoolAction, PoolEvent, PoolPhase,
};

fn manager() -> DbConnectionManager {
    DbConnectionManager::new("postgres://pos@db:5432/pos".to_string())
}

#[test]
fn pool_limits() {
    let s = pool_settings();
    assert_eq!(s.max_connections, 10);
    assert_eq!(s.min_connections, 1);
    assert_eq!(s.acquire_timeout_secs, 30);
    assert_eq!(s.idle_timeout_secs, 600);
    assert_eq!(s.max_lifetime_secs, 1800);
    assert_eq!(s.connect_timeout_secs, 30);
}

#[test]
fn first_request_opens_tests_and_keeps_a_pool() {
    let mut m = manager();
    assert!(!m.has_pool);
    match m.get_pool(PoolEvent::Requested) {
        PoolAction::Connect { connection_string, settings } => {
            assert_eq!(connection_string, "postgres://pos@db:5432/pos");
            assert_eq!(settings, pool_settings());
        },
        _ => panic!("a pool is to be opened"),
    }
    assert_eq!(m.phase, PoolPhase::Connecting);
    assert!(matches!(m.get_pool(PoolEvent::Succeeded), PoolAction::TestNew));
    assert!(!m.has_pool);
    assert!(matches!(m.get_pool(PoolEvent::Succeeded), PoolAction::KeepNew));
    assert!(m.has_pool);
    assert_eq!(m.phase, PoolPhase::Idle);
}

#[test]
fn kept_pool_is_probed_before_it_is_handed_out() {
    let mut m = manager();
    m.has_pool = true;
    assert!(matches!(m.get_pool(PoolEvent::Requested), PoolAction::ProbeKept));
    assert!(matches!(m.get_pool(PoolEvent::Succeeded), PoolAction::UseKept));
    assert_eq!(m.phase, PoolPhase::Idle);
    assert!(m.has_pool);
}

#[test]
fn stale_pool_is_replaced() {
    let mut m = manager();
    m.has_pool = true;
    m.get_pool(PoolEvent::Requested);
    assert!(matches!(m.get_pool(PoolEvent::Failed), PoolAction::Connect { .. }));
    assert!(matches!(m.get_pool(PoolEvent::Succeeded), PoolAction::TestNew));
    assert!(matches!(m.get_pool(PoolEvent::Succeeded), PoolAction::KeepNew));
    assert!(m.has_pool);
}

#[test]
fn failure_to_connect_is_a_connection_error() {
    let mut m = manager();
    m.get_pool(PoolEvent::Requested);
    assert!(matches!(m.get_pool(PoolEvent::Failed), PoolAction::Fail(ServiceError::DatabaseConnectionError)));
    assert_eq!(m.phase, PoolPhase::Idle);
    assert!(!m.has_pool);
    m.get_pool(PoolEvent::Requested);
    m.get_pool(PoolEvent::Succeeded);
    assert!(matches!(m.get_pool(PoolEvent::Failed), PoolAction::Fail(ServiceError::DatabaseConnectionError)));
    assert!(!m.has_pool);
}

#[test]
fn event_without_a_request_changes_nothing() {
    let mut m = manager();
    assert!(matches!(m.get_pool(PoolEvent::Succeeded), PoolAction::Fail(ServiceError::InternalServerError)));
    assert_eq!(m.phase, PoolPhase::Idle);
    assert!(!m.has_pool);
}

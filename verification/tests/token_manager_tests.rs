use kiro_pool::db::Database;
use kiro_pool::refresh::validate_refresh_token;
use kiro_pool::token_manager::{
    is_token_expired, is_token_expiring_soon, MultiTokenManager,
};
use kiro_pool::KiroCredentials;

fn rfc3339(t: i64) -> String {
    chrono::DateTime::from_timestamp(t, 0).unwrap().to_rfc3339()
}

fn setup_test_db(credentials: Vec<KiroCredentials>) -> Database {
    let mut db = Database::new();
    for cred in credentials {
        db.insert_credential(&cred).unwrap();
    }
    db
}

#[test]
fn test_is_token_expired_with_expired_token() {
    let now = chrono::Utc::now().timestamp();
    let mut credentials = KiroCredentials::default();
    credentials.expires_at = Some("2020-01-01T00:00:00Z".to_string());
    assert!(is_token_expired(&credentials, now));
}

#[test]
fn test_is_token_expired_with_valid_token() {
    let now = chrono::Utc::now().timestamp();
    let mut credentials = KiroCredentials::default();
    credentials.expires_at = Some(rfc3339(now + 3600));
    assert!(!is_token_expired(&credentials, now));
}

#[test]
fn test_is_token_expired_within_5_minutes() {
    let now = chrono::Utc::now().timestamp();
    let mut credentials = KiroCredentials::default();
    credentials.expires_at = Some(rfc3339(now + 3 * 60));
    assert!(is_token_expired(&credentials, now));
}

#[test]
fn test_is_token_expired_no_expires_at() {
    let now = chrono::Utc::now().timestamp();
    let credentials = KiroCredentials::default();
    assert!(is_token_expired(&credentials, now));
}

#[test]
fn test_is_token_expiring_soon_within_10_minutes() {
    let now = chrono::Utc::now().timestamp();
    let mut credentials = KiroCredentials::default();
    credentials.expires_at = Some(rfc3339(now + 8 * 60));
    assert!(is_token_expiring_soon(&credentials, now));
}

#[test]
fn test_is_token_expiring_soon_beyond_10_minutes() {
    let now = chrono::Utc::now().timestamp();
    let mut credentials = KiroCredentials::default();
    credentials.expires_at = Some(rfc3339(now + 15 * 60));
    assert!(!is_token_expiring_soon(&credentials, now));
}

#[test]
fn test_validate_refresh_token_missing() {
    let credentials = KiroCredentials::default();
    let result = validate_refresh_token(&credentials);
    assert!(result.is_err());
}

#[test]
fn test_validate_refresh_token_valid() {
    let mut credentials = KiroCredentials::default();
    credentials.refresh_token = Some("a".repeat(150));
    let result = validate_refresh_token(&credentials);
    assert!(result.is_ok());
}

#[test]
fn test_multi_token_manager_new() {
    let mut cred1 = KiroCredentials::default();
    cred1.refresh_token = Some("token1".to_string());
    cred1.priority = 0;
    let mut cred2 = KiroCredentials::default();
    cred2.refresh_token = Some("token2".to_string());
    cred2.priority = 1;

    let db = setup_test_db(vec![cred1, cred2]);
    let manager = MultiTokenManager::new(db);
    assert_eq!(manager.total_count(), 2);
    assert_eq!(manager.available_count(), 2);
}

#[test]
fn test_multi_token_manager_empty_credentials() {
    let db = setup_test_db(vec![]);
    // an empty pool is legal; asking it for a context fails later
    let manager = MultiTokenManager::new(db);
    assert_eq!(manager.total_count(), 0);
    assert_eq!(manager.available_count(), 0);
}

#[test]
fn test_multi_token_manager_report_failure() {
    let now = 1_700_000_000i64;
    let mut cred1 = KiroCredentials::default();
    cred1.refresh_token = Some("token1".to_string());
    let mut cred2 = KiroCredentials::default();
    cred2.refresh_token = Some("token2".to_string());

    let db = setup_test_db(vec![cred1, cred2]);
    let mut manager = MultiTokenManager::new(db);

    // ids are store-assigned starting at 1; two failures do not disable
    assert!(manager.report_failure(1, now));
    assert!(manager.report_failure(1, now));
    assert_eq!(manager.available_count(), 2);

    // the third failure disables the first credential
    assert!(manager.report_failure(1, now));
    assert_eq!(manager.available_count(), 1);

    // then the second credential fails out too
    assert!(manager.report_failure(2, now));
    assert!(manager.report_failure(2, now));
    assert!(!manager.report_failure(2, now));
    assert_eq!(manager.available_count(), 0);
}

#[test]
fn test_multi_token_manager_report_success() {
    let now = 1_700_000_000i64;
    let mut cred = KiroCredentials::default();
    cred.refresh_token = Some("token".to_string());

    let db = setup_test_db(vec![cred]);
    let mut manager = MultiTokenManager::new(db);

    manager.report_failure(1, now);
    manager.report_failure(1, now);

    // success resets the count
    manager.report_success(1);

    // two more failures still do not disable
    manager.report_failure(1, now);
    manager.report_failure(1, now);
    assert_eq!(manager.available_count(), 1);
}

#[test]
fn test_multi_token_manager_switch_to_next() {
    let mut cred1 = KiroCredentials::default();
    cred1.refresh_token = Some("token1".to_string());
    cred1.priority = 0;
    let mut cred2 = KiroCredentials::default();
    cred2.refresh_token = Some("token2".to_string());
    cred2.priority = 1;

    let db = setup_test_db(vec![cred1, cred2]);
    let mut manager = MultiTokenManager::new(db);

    assert_eq!(manager.credentials().refresh_token, Some("token1".to_string()));

    assert!(manager.switch_to_next());
    assert_eq!(manager.credentials().refresh_token, Some("token2".to_string()));
}

#[test]
fn consecutive_failures_count_exactly() {
    let now = 1_700_000_000i64;
    let db = setup_test_db(vec![KiroCredentials::default(), KiroCredentials::default()]);
    let mut manager = MultiTokenManager::new(db);

    manager.report_failure(1, now);
    assert_eq!(manager.database().get_credential(1).unwrap().failure_count, 1);
    manager.report_failure(1, now);
    assert_eq!(manager.database().get_credential(1).unwrap().failure_count, 2);
    manager.report_failure(1, now);
    let tripped = manager.database().get_credential(1).unwrap();
    assert_eq!(tripped.failure_count, 3);
    assert!(tripped.disabled);
    assert!(tripped.disabled_at.is_some());

    // success resets the other credential's accounting independently
    manager.report_failure(2, now);
    manager.report_success(2);
    assert_eq!(manager.database().get_credential(2).unwrap().failure_count, 0);
}

#[test]
fn snapshot_reflects_the_pool() {
    let now = 1_700_000_000i64;
    let mut a = KiroCredentials::default();
    a.priority = 1;
    a.auth_method = Some("social".to_string());
    let mut b = KiroCredentials::default();
    b.priority = 0;
    b.profile_arn = Some("arn:aws:sso::1:profile/x".to_string());
    let db = setup_test_db(vec![a, b]);
    let mut manager = MultiTokenManager::new(db);
    manager.report_failure(1, now);

    let snap = manager.snapshot();
    assert_eq!(snap.total, 2);
    assert_eq!(snap.available, 2);
    assert_eq!(snap.current_id, 2);
    assert_eq!(snap.entries.len(), 2);
    // entries come in selection order: priority 0 first
    assert_eq!(snap.entries[0].id, 2);
    assert_eq!(snap.entries[0].priority, 0);
    assert!(snap.entries[0].has_profile_arn);
    assert_eq!(snap.entries[1].id, 1);
    assert_eq!(snap.entries[1].failure_count, 1);
    assert_eq!(snap.entries[1].auth_method, Some("social".to_string()));
}

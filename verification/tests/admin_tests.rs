use kiro_pool::admin::{
    classify_balance_error, AdminService, AdminServiceError, BalanceError,
};
use kiro_pool::db::Database;
use kiro_pool::refresh::RefreshErrorKind;
use kiro_pool::text::u64_to_string;
use kiro_pool::token_manager::{MultiTokenManager, PoolError};
use kiro_pool::is_zero;

#[test]
fn numbers_render_in_decimal() {
    assert_eq!(u64_to_string(0), "0");
    assert_eq!(u64_to_string(7), "7");
    assert_eq!(u64_to_string(10), "10");
    assert_eq!(u64_to_string(12345), "12345");
    assert_eq!(u64_to_string(u64::MAX), "18446744073709551615");
}

#[test]
fn zero_predicate() {
    assert!(is_zero(&0));
    assert!(!is_zero(&3));
}

#[test]
fn status_codes_per_error_kind() {
    assert_eq!(AdminServiceError::NotFound { id: 1 }.status_code(), 404);
    assert_eq!(AdminServiceError::InvalidRequest("x".to_string()).status_code(), 400);
    assert_eq!(AdminServiceError::UpstreamError("x".to_string()).status_code(), 502);
    assert_eq!(AdminServiceError::InternalError("x".to_string()).status_code(), 500);
}

#[test]
fn responses_carry_kind_tags() {
    let r = AdminServiceError::NotFound { id: 12 }.into_response();
    assert_eq!(r.kind, "not_found");
    assert_eq!(r.error, "credential not found: 12");

    let r = AdminServiceError::InvalidRequest("bad".to_string()).into_response();
    assert_eq!(r.kind, "invalid_request");
    assert_eq!(r.error, "bad");

    let r = AdminServiceError::UpstreamError("down".to_string()).into_response();
    assert_eq!(r.kind, "api_error");
    assert_eq!(r.error, "down");

    let r = AdminServiceError::InternalError("oops".to_string()).into_response();
    assert_eq!(r.kind, "internal_error");
    assert_eq!(r.error, "oops");
}

#[test]
fn error_messages_name_the_id() {
    let msg = AdminServiceError::NotFound { id: 307 }.message();
    assert_eq!(msg, "credential not found: 307");
}

#[test]
fn balance_errors_classify_by_origin() {
    // an unknown id is not-found
    assert!(matches!(
        classify_balance_error(BalanceError::Pool(PoolError::CredentialNotFound { id: 5 }), 5),
        AdminServiceError::NotFound { id: 5 }
    ));
    // upstream trouble is an upstream error
    assert!(matches!(
        classify_balance_error(
            BalanceError::Upstream(RefreshErrorKind::RateLimited),
            1
        ),
        AdminServiceError::UpstreamError(_)
    ));
    assert!(matches!(
        classify_balance_error(
            BalanceError::Upstream(RefreshErrorKind::NetworkError),
            1
        ),
        AdminServiceError::UpstreamError(_)
    ));
    // local validation stays internal
    assert!(matches!(
        classify_balance_error(
            BalanceError::Upstream(RefreshErrorKind::TruncatedCredential),
            1
        ),
        AdminServiceError::InternalError(_)
    ));
    assert!(matches!(
        classify_balance_error(
            BalanceError::Pool(PoolError::MissingAccessToken { id: 1 }),
            1
        ),
        AdminServiceError::InternalError(_)
    ));
}

#[test]
fn admin_priority_and_reset_round_trip() {
    let mut db = Database::new();
    let mut cred = kiro_pool::KiroCredentials::default();
    cred.refresh_token = Some("r".repeat(150));
    db.insert_credential(&cred).unwrap();
    let manager = MultiTokenManager::new(db);
    let mut service = AdminService::new(manager);

    service.set_priority(1, 9).unwrap();
    assert_eq!(service.manager.database().get_credential(1).unwrap().priority, 9);

    service.manager.report_failure(1, 0);
    service.manager.report_failure(1, 0);
    service.manager.report_failure(1, 0);
    assert!(service.manager.database().get_credential(1).unwrap().disabled);

    service.reset_and_enable(1).unwrap();
    let got = service.manager.database().get_credential(1).unwrap();
    assert!(!got.disabled);
    assert_eq!(got.disabled_at, None);
    assert_eq!(got.failure_count, 0);
}

#[test]
fn admin_mutations_on_unknown_ids_report_not_found() {
    let db = Database::new();
    let manager = MultiTokenManager::new(db);
    let mut service = AdminService::new(manager);

    assert!(matches!(
        service.set_disabled(7, true, 0),
        Err(AdminServiceError::NotFound { id: 7 })
    ));
    assert!(matches!(
        service.set_priority(8, 3),
        Err(AdminServiceError::NotFound { id: 8 })
    ));
    assert!(matches!(
        service.reset_and_enable(9),
        Err(AdminServiceError::NotFound { id: 9 })
    ));
    assert_eq!(service.manager.total_count(), 0);
}

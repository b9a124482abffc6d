use kiro_pool::admin::{AdminService, AdminServiceError};
use kiro_pool::db::Database;
use kiro_pool::refresh::RefreshSuccess;
use kiro_pool::token_manager::{
    AcquireStep, EnsureStep, MultiTokenManager, PoolError,
};
use kiro_pool::KiroCredentials;

const NOW: i64 = 1_700_000_000;

fn rfc3339(t: i64) -> String {
    chrono::DateTime::from_timestamp(t, 0).unwrap().to_rfc3339()
}

fn fresh_credential(priority: u32) -> KiroCredentials {
    let mut c = KiroCredentials::default();
    c.refresh_token = Some("r".repeat(150));
    c.access_token = Some(format!("token-p{}", priority));
    c.expires_at = Some(rfc3339(NOW + 2 * 3600));
    c.priority = priority;
    c
}

fn manager_with(credentials: Vec<KiroCredentials>) -> MultiTokenManager {
    let mut db = Database::new();
    for cred in credentials {
        db.insert_credential(&cred).unwrap();
    }
    MultiTokenManager::new(db)
}

#[test]
fn empty_pool_yields_no_usable_credential() {
    let mut manager = manager_with(vec![]);
    let (_round, step) = manager.acquire_context(NOW);
    match step {
        AcquireStep::Failed(PoolError::NoUsableCredential { available, total }) => {
            assert_eq!(available, 0);
            assert_eq!(total, 0);
        },
        _ => panic!("an empty pool must fail with NoUsableCredential"),
    }
    let snap = manager.snapshot();
    assert!(snap.entries.is_empty());
    assert_eq!(snap.current_id, 0);
    assert_eq!(snap.total, 0);
    assert_eq!(snap.available, 0);
}

#[test]
fn single_disabled_credential_yields_all_disabled() {
    let mut manager = manager_with(vec![fresh_credential(0)]);
    // manual disable: recent enough that the sweep leaves it alone
    manager.set_disabled(1, true, NOW - 10);
    let (_round, step) = manager.acquire_context(NOW);
    match step {
        AcquireStep::Failed(PoolError::AllDisabled { available, total }) => {
            assert_eq!(available, 0);
            assert_eq!(total, 1);
        },
        _ => panic!("a fully disabled pool must fail with AllDisabled"),
    }
}

#[test]
fn absent_expiry_triggers_refresh() {
    let mut c = fresh_credential(0);
    c.expires_at = None;
    let mut manager = manager_with(vec![c]);
    let (_round, step) = manager.acquire_context(NOW);
    match step {
        AcquireStep::Refresh { id, credentials } => {
            assert_eq!(id, 1);
            assert_eq!(credentials.expires_at, None);
        },
        _ => panic!("an absent expiry must be treated as expired"),
    }
}

#[test]
fn expiry_boundary_is_inclusive() {
    // exactly five minutes ahead: still expired
    let mut c = fresh_credential(0);
    c.expires_at = Some(rfc3339(NOW + 300));
    let mut manager = manager_with(vec![c]);
    let (_round, step) = manager.acquire_context(NOW);
    assert!(matches!(step, AcquireStep::Refresh { .. }));

    // one second past the boundary: no longer expired, but expiring soon
    let mut c = fresh_credential(0);
    c.expires_at = Some(rfc3339(NOW + 301));
    assert!(!kiro_pool::token_manager::is_token_expired(&c, NOW));
    assert!(kiro_pool::token_manager::is_token_expiring_soon(&c, NOW));

    // past the ten-minute window: used as it stands
    let mut c = fresh_credential(0);
    c.expires_at = Some(rfc3339(NOW + 601));
    let mut manager = manager_with(vec![c]);
    let (_round, step) = manager.acquire_context(NOW);
    assert!(matches!(step, AcquireStep::Ready(_)));
}

#[test]
fn priority_tie_breaks_by_id() {
    let mut manager = manager_with(vec![fresh_credential(3), fresh_credential(3)]);
    let (_round, step) = manager.acquire_context(NOW);
    match step {
        AcquireStep::Ready(ctx) => assert_eq!(ctx.id, 1),
        _ => panic!("expected a ready context"),
    }
    // disabling the lower id moves selection to the higher id
    manager.set_disabled(1, true, NOW);
    manager.switch_to_next();
    let (_round, step) = manager.acquire_context(NOW);
    match step {
        AcquireStep::Ready(ctx) => assert_eq!(ctx.id, 2),
        _ => panic!("expected a ready context"),
    }
}

#[test]
fn failover_after_three_reported_failures() {
    let mut manager = manager_with(vec![fresh_credential(0), fresh_credential(1)]);

    let (_round, step) = manager.acquire_context(NOW);
    let ctx = match step {
        AcquireStep::Ready(ctx) => ctx,
        _ => panic!("expected a ready context"),
    };
    assert_eq!(ctx.id, 1);

    // the upstream answers 401 three times; the caller reports each one
    assert!(manager.report_failure(ctx.id, NOW));
    assert!(manager.report_failure(ctx.id, NOW));
    assert!(manager.report_failure(ctx.id, NOW));

    let tripped = manager.database().get_credential(1).unwrap();
    assert_eq!(tripped.failure_count, 3);
    assert!(tripped.disabled);
    assert_eq!(manager.current_credential_id(), 2);

    let (_round, step) = manager.acquire_context(NOW);
    match step {
        AcquireStep::Ready(ctx) => assert_eq!(ctx.id, 2),
        _ => panic!("expected the second credential"),
    }
}

#[test]
fn refresh_is_not_repeated_after_it_persists() {
    let mut c = fresh_credential(0);
    c.access_token = None;
    c.expires_at = None;
    let mut manager = manager_with(vec![c]);

    // the first caller is sent to refresh
    let (_round, step) = manager.acquire_context(NOW);
    let id = match step {
        AcquireStep::Refresh { id, .. } => id,
        _ => panic!("expected a refresh request"),
    };

    // under the refresh lock the double-check still sees the stale token
    assert!(matches!(manager.ensure_token_check(id, NOW), EnsureStep::Refresh(_)));

    // one upstream refresh happens; its result is persisted
    let response = RefreshSuccess {
        access_token: "fresh-token".to_string(),
        refresh_token: None,
        profile_arn: None,
        expires_in: Some(3600),
    };
    let ctx = manager.ensure_token_finish(id, response, NOW).unwrap();
    assert_eq!(ctx.token, "fresh-token");

    // every caller that waited re-checks and reuses the persisted token:
    // the refresh client is not invoked again
    for _ in 0..10 {
        match manager.ensure_token_check(id, NOW) {
            EnsureStep::Ready(again) => assert_eq!(again.token, "fresh-token"),
            _ => panic!("the persisted refresh must be reused"),
        }
    }
    // and a whole new acquire round needs no refresh either
    let (_round, step) = manager.acquire_context(NOW);
    match step {
        AcquireStep::Ready(again) => assert_eq!(again.token, "fresh-token"),
        _ => panic!("the persisted refresh must be reused"),
    }
}

#[test]
fn refresh_failure_advances_without_counting() {
    let mut a = fresh_credential(0);
    a.expires_at = None;
    let mut manager = manager_with(vec![a, fresh_credential(1)]);

    // the first credential needs a refresh; it fails upstream
    let (mut round, step) = manager.acquire_context(NOW);
    match step {
        AcquireStep::Refresh { id, .. } => assert_eq!(id, 1),
        _ => panic!("the expired credential must ask for a refresh"),
    }
    let step = manager.acquire_failed(&mut round, NOW);

    // the round moves on to the second credential at once
    match step {
        AcquireStep::Ready(ctx) => assert_eq!(ctx.id, 2),
        _ => panic!("the round must fail over to the next credential"),
    }

    // a refresh failure is not an API-call failure: no accounting, no
    // disabling
    let skipped = manager.database().get_credential(1).unwrap();
    assert_eq!(skipped.failure_count, 0);
    assert!(!skipped.disabled);
}

#[test]
fn exhausted_round_reports_no_usable_credential() {
    let mut a = fresh_credential(0);
    a.expires_at = None;
    let mut b = fresh_credential(1);
    b.expires_at = None;
    let mut manager = manager_with(vec![a, b]);

    let (mut round, mut step) = manager.acquire_context(NOW);
    let mut refreshes = 0;
    loop {
        match step {
            AcquireStep::Refresh { .. } => {
                refreshes += 1;
                step = manager.acquire_failed(&mut round, NOW);
            },
            AcquireStep::Failed(PoolError::NoUsableCredential { available, total }) => {
                assert_eq!(available, 2);
                assert_eq!(total, 2);
                break;
            },
            _ => panic!("every refresh fails, so the round must exhaust"),
        }
    }
    assert_eq!(refreshes, 2);
}

#[test]
fn still_expired_refresh_result_is_rejected() {
    let mut c = fresh_credential(0);
    c.expires_at = None;
    let mut manager = manager_with(vec![c]);
    let response = RefreshSuccess {
        access_token: "t".to_string(),
        refresh_token: None,
        profile_arn: None,
        expires_in: Some(100),
    };
    match manager.ensure_token_finish(1, response, NOW) {
        Err(PoolError::StillExpiredAfterRefresh { id }) => assert_eq!(id, 1),
        _ => panic!("a still-expired token must be rejected"),
    }
    // nothing was persisted: the record still holds its old token and no expiry
    let row = manager.database().get_credential(1).unwrap();
    assert_eq!(row.access_token, Some("token-p0".to_string()));
    assert_eq!(row.expires_at, None);
}

#[test]
fn ensure_token_check_reports_missing_cases() {
    let mut fresh_no_token = fresh_credential(0);
    fresh_no_token.access_token = None;
    let manager = manager_with(vec![fresh_no_token]);
    match manager.ensure_token_check(1, NOW) {
        EnsureStep::Failed(PoolError::MissingAccessToken { id }) => assert_eq!(id, 1),
        _ => panic!("a fresh record without a token must be reported"),
    }
    match manager.ensure_token_check(99, NOW) {
        EnsureStep::Failed(PoolError::CredentialNotFound { id }) => assert_eq!(id, 99),
        _ => panic!("an unknown id must be reported"),
    }
}

#[test]
fn cool_down_recovery_happens_on_acquire() {
    let mut manager = manager_with(vec![fresh_credential(0)]);
    manager.report_failure(1, NOW - 310);
    manager.report_failure(1, NOW - 310);
    manager.report_failure(1, NOW - 310);
    assert!(manager.database().get_credential(1).unwrap().disabled);

    // 310 seconds later the sweep at the head of acquire re-enables it
    let (_round, step) = manager.acquire_context(NOW);
    match step {
        AcquireStep::Ready(ctx) => assert_eq!(ctx.id, 1),
        _ => panic!("the recovered credential must serve"),
    }
    let recovered = manager.database().get_credential(1).unwrap();
    assert!(!recovered.disabled);
    assert_eq!(recovered.disabled_at, None);
    assert_eq!(recovered.failure_count, 0);
}

#[test]
fn priority_change_takes_effect_immediately() {
    let mut manager = manager_with(vec![fresh_credential(0), fresh_credential(1)]);
    assert_eq!(manager.current_credential_id(), 1);

    // equal priorities: the tie breaks to the smaller id, so the current
    // credential stands
    manager.set_priority(2, 0);
    assert_eq!(manager.current_credential_id(), 1);

    // a real demotion of the current credential switches at once
    manager.set_priority(1, 5);
    assert_eq!(manager.current_credential_id(), 2);
    let (_round, step) = manager.acquire_context(NOW);
    match step {
        AcquireStep::Ready(ctx) => assert_eq!(ctx.id, 2),
        _ => panic!("expected the promoted credential"),
    }
}

#[test]
fn duplicate_client_id_is_rejected() {
    let manager = manager_with(vec![]);
    let mut service = AdminService::new(manager);

    let first = service.add_credential(
        "r".repeat(150),
        Some("idc".to_string()),
        Some("x".to_string()),
        Some("cs".to_string()),
        None,
        None,
    );
    assert!(first.is_ok());

    let second = service.add_credential(
        "s".repeat(150),
        Some("idc".to_string()),
        Some("x".to_string()),
        Some("cs".to_string()),
        None,
        None,
    );
    match second {
        Err(AdminServiceError::InvalidRequest(msg)) => {
            assert_eq!(msg, "account already exists");
        },
        _ => panic!("a duplicate client id must be rejected"),
    }
}

#[test]
fn truncated_refresh_token_is_rejected_before_any_request() {
    let mut c = KiroCredentials::default();
    c.refresh_token = Some("abc...".to_string());
    // planning the request fails, so there is nothing to send
    match kiro_pool::refresh::plan_refresh_request(&c, "us-east-1", "1.0") {
        Err(kiro_pool::refresh::RefreshErrorKind::TruncatedCredential) => {},
        _ => panic!("a truncated token must be rejected before the network"),
    }
}

#[test]
fn admin_disable_of_current_switches() {
    let manager = manager_with(vec![fresh_credential(0), fresh_credential(1)]);
    let mut service = AdminService::new(manager);
    assert_eq!(service.manager.current_credential_id(), 1);

    service.set_disabled(1, true, NOW).unwrap();
    assert_eq!(service.manager.current_credential_id(), 2);

    // re-enabling clears the failure count atomically
    service.set_disabled(1, false, NOW).unwrap();
    let re = service.manager.database().get_credential(1).unwrap();
    assert!(!re.disabled);
    assert_eq!(re.disabled_at, None);
    assert_eq!(re.failure_count, 0);
}

#[test]
fn admin_delete_reselects_or_reports_not_found() {
    let manager = manager_with(vec![fresh_credential(0), fresh_credential(1)]);
    let mut service = AdminService::new(manager);
    assert!(matches!(
        service.delete_credential(42),
        Err(AdminServiceError::NotFound { id: 42 })
    ));
    service.delete_credential(1).unwrap();
    assert_eq!(service.manager.current_credential_id(), 2);
    service.delete_credential(2).unwrap();
    assert_eq!(service.manager.current_credential_id(), 0);
    assert_eq!(service.manager.total_count(), 0);
}

#[test]
fn add_credential_validates_machine_id_and_selects_first() {
    let manager = manager_with(vec![]);
    let mut service = AdminService::new(manager);

    match service.add_credential("r".repeat(150), None, None, None, Some("nope".to_string()), None)
    {
        Err(AdminServiceError::InvalidRequest(msg)) => {
            assert_eq!(msg, "machineId must be a valid UUID v4 (36 characters)");
        },
        _ => panic!("a malformed machine id must be rejected"),
    }

    let id = service
        .add_credential("r".repeat(150), None, None, None, None, Some(4))
        .unwrap();
    assert_eq!(service.manager.current_credential_id(), id);
    let got = service.manager.database().get_credential(id).unwrap();
    assert_eq!(got.priority, 4);
    assert!(!got.disabled);
    assert_eq!(got.failure_count, 0);
}

use kiro_pool::db::{Database, StoreError};
use kiro_pool::KiroCredentials;

#[test]
fn test_database_open_and_init() {
    let db = Database::new();
    assert_eq!(db.count_credentials(), 0);
}

#[test]
fn test_insert_and_load() {
    let mut db = Database::new();

    let cred = KiroCredentials {
        id: None,
        refresh_token: Some("test_refresh".to_string()),
        access_token: Some("test_access".to_string()),
        expires_at: Some("2025-12-31T00:00:00Z".to_string()),
        auth_method: Some("social".to_string()),
        client_id: None,
        client_secret: None,
        profile_arn: None,
        machine_id: None,
        priority: 0,
        disabled: false,
        failure_count: 0,
        disabled_at: None,
        subscription_title: None,
        current_usage: 0,
        usage_limit: 0,
        next_reset_at: None,
        balance_updated_at: None,
    };

    let id = db.insert_credential(&cred).unwrap();
    assert!(id > 0);

    let loaded = db.load_credentials();
    assert_eq!(loaded.len(), 1);
    assert_eq!(loaded[0].id, Some(id));
    assert_eq!(loaded[0].refresh_token, Some("test_refresh".to_string()));
}

#[test]
fn test_update_credential() {
    let mut db = Database::new();

    let mut cred = KiroCredentials::default();
    cred.refresh_token = Some("original".to_string());

    let id = db.insert_credential(&cred).unwrap();
    cred.id = Some(id);
    cred.refresh_token = Some("updated".to_string());

    assert!(db.update_credential(&cred).unwrap());

    let loaded = db.get_credential(id).unwrap();
    assert_eq!(loaded.refresh_token, Some("updated".to_string()));
}

#[test]
fn update_without_id_is_refused() {
    let mut db = Database::new();
    let cred = KiroCredentials::default();
    assert!(matches!(db.update_credential(&cred), Err(StoreError::MissingId)));
}

#[test]
fn test_delete_credential() {
    let mut db = Database::new();

    let mut cred = KiroCredentials::default();
    cred.refresh_token = Some("to_delete".to_string());

    let id = db.insert_credential(&cred).unwrap();
    assert_eq!(db.count_credentials(), 1);

    assert!(db.delete_credential(id));
    assert_eq!(db.count_credentials(), 0);
    assert!(!db.delete_credential(id));
}

#[test]
fn test_priority_ordering() {
    let mut db = Database::new();

    for (token, priority) in [("high", 0), ("low", 2), ("medium", 1)] {
        let mut cred = KiroCredentials::default();
        cred.refresh_token = Some(token.to_string());
        cred.priority = priority;
        db.insert_credential(&cred).unwrap();
    }

    let loaded = db.load_credentials();
    assert_eq!(loaded[0].refresh_token, Some("high".to_string()));
    assert_eq!(loaded[1].refresh_token, Some("medium".to_string()));
    assert_eq!(loaded[2].refresh_token, Some("low".to_string()));
}

#[test]
fn insert_then_get_round_trips_every_field() {
    let mut db = Database::new();
    let cred = KiroCredentials {
        id: None,
        refresh_token: Some("rt".to_string()),
        access_token: Some("at".to_string()),
        expires_at: Some("2030-01-01T00:00:00+00:00".to_string()),
        auth_method: Some("idc".to_string()),
        client_id: Some("cid".to_string()),
        client_secret: Some("cs".to_string()),
        profile_arn: Some("arn:aws:sso::1:profile/p".to_string()),
        machine_id: Some("b3981d12-4d61-418c-9b77-461db82a7cc4".to_string()),
        priority: 7,
        disabled: false,
        failure_count: 2,
        disabled_at: None,
        subscription_title: Some("pro".to_string()),
        current_usage: 10,
        usage_limit: 100,
        next_reset_at: Some(1_700_000_000),
        balance_updated_at: Some(1_699_999_999),
    };
    let id = db.insert_credential(&cred).unwrap();
    let got = db.get_credential(id).unwrap();
    // equal to what was inserted, except for the assigned id
    assert_eq!(got.id, Some(id));
    assert_eq!(got.refresh_token, cred.refresh_token);
    assert_eq!(got.access_token, cred.access_token);
    assert_eq!(got.expires_at, cred.expires_at);
    assert_eq!(got.auth_method, cred.auth_method);
    assert_eq!(got.client_id, cred.client_id);
    assert_eq!(got.client_secret, cred.client_secret);
    assert_eq!(got.profile_arn, cred.profile_arn);
    assert_eq!(got.machine_id, cred.machine_id);
    assert_eq!(got.priority, cred.priority);
    assert_eq!(got.disabled, cred.disabled);
    assert_eq!(got.failure_count, cred.failure_count);
    assert_eq!(got.disabled_at, cred.disabled_at);
    assert_eq!(got.subscription_title, cred.subscription_title);
    assert_eq!(got.current_usage, cred.current_usage);
    assert_eq!(got.usage_limit, cred.usage_limit);
    assert_eq!(got.next_reset_at, cred.next_reset_at);
    assert_eq!(got.balance_updated_at, cred.balance_updated_at);
}

#[test]
fn set_priority_moves_record_to_implied_position() {
    let mut db = Database::new();
    let mut ids = Vec::new();
    for priority in [0u32, 1, 2, 3] {
        let mut cred = KiroCredentials::default();
        cred.priority = priority;
        ids.push(db.insert_credential(&cred).unwrap());
    }
    // move the last record to the front of the order
    assert!(db.set_priority(ids[3], 0));
    let loaded = db.load_credentials();
    // priority ties break by id: the moved record (larger id) follows the
    // original priority-0 record
    assert_eq!(loaded[0].id, Some(ids[0]));
    assert_eq!(loaded[1].id, Some(ids[3]));
    assert_eq!(loaded[2].id, Some(ids[1]));
    assert_eq!(loaded[3].id, Some(ids[2]));
}

#[test]
fn increment_and_reset_failure_count() {
    let mut db = Database::new();
    let cred = KiroCredentials::default();
    let id = db.insert_credential(&cred).unwrap();

    assert_eq!(db.increment_failure_count(id), Some(1));
    assert_eq!(db.increment_failure_count(id), Some(2));
    assert_eq!(db.get_credential(id).unwrap().failure_count, 2);
    assert_eq!(db.increment_failure_count(9999), None);

    assert!(db.reset_failure_count(id));
    assert_eq!(db.get_credential(id).unwrap().failure_count, 0);
}

#[test]
fn set_disabled_stamps_and_clears() {
    let mut db = Database::new();
    let cred = KiroCredentials::default();
    let id = db.insert_credential(&cred).unwrap();

    assert!(db.set_disabled(id, true, 1_700_000_000));
    let got = db.get_credential(id).unwrap();
    assert!(got.disabled);
    assert_eq!(got.disabled_at, Some(1_700_000_000));

    assert!(db.set_disabled(id, false, 1_700_000_100));
    let got = db.get_credential(id).unwrap();
    assert!(!got.disabled);
    assert_eq!(got.disabled_at, None);
}

#[test]
fn reset_and_enable_clears_everything() {
    let mut db = Database::new();
    let cred = KiroCredentials::default();
    let id = db.insert_credential(&cred).unwrap();
    db.increment_failure_count(id);
    db.increment_failure_count(id);
    db.set_disabled(id, true, 1_700_000_000);

    assert!(db.reset_and_enable(id));
    let got = db.get_credential(id).unwrap();
    assert!(!got.disabled);
    assert_eq!(got.disabled_at, None);
    assert_eq!(got.failure_count, 0);
}

#[test]
fn recovery_sweep_honours_the_cutoff() {
    let now: i64 = 1_700_000_000;
    let mut db = Database::new();
    let mut ids = Vec::new();
    for _ in 0..3 {
        ids.push(db.insert_credential(&KiroCredentials::default()).unwrap());
    }
    db.increment_failure_count(ids[0]);
    // disabled long ago: due for recovery
    db.set_disabled(ids[0], true, now - 310);
    // disabled just inside the cool-down: untouched
    db.set_disabled(ids[1], true, now - 290);

    let recovered = db.try_recover_disabled(300, now);
    assert_eq!(recovered, 1);

    let a = db.get_credential(ids[0]).unwrap();
    assert!(!a.disabled);
    assert_eq!(a.disabled_at, None);
    assert_eq!(a.failure_count, 0);

    let b = db.get_credential(ids[1]).unwrap();
    assert!(b.disabled);
    assert_eq!(b.disabled_at, Some(now - 290));
}

#[test]
fn disabled_flag_and_stamp_agree() {
    let mut db = Database::new();
    let id = db.insert_credential(&KiroCredentials::default()).unwrap();
    let fresh = db.get_credential(id).unwrap();
    assert_eq!(fresh.disabled, fresh.disabled_at.is_some());
    db.set_disabled(id, true, 42);
    let off = db.get_credential(id).unwrap();
    assert_eq!(off.disabled, off.disabled_at.is_some());
    db.reset_and_enable(id);
    let on = db.get_credential(id).unwrap();
    assert_eq!(on.disabled, on.disabled_at.is_some());
}

#[test]
fn highest_priority_and_next_available() {
    let mut db = Database::new();
    let mut ids = Vec::new();
    for priority in [2u32, 0, 1] {
        let mut cred = KiroCredentials::default();
        cred.priority = priority;
        ids.push(db.insert_credential(&cred).unwrap());
    }
    let best = db.get_highest_priority_available().unwrap();
    assert_eq!(best.id, Some(ids[1]));

    let next = db.get_next_available(ids[1]).unwrap();
    assert_eq!(next.id, Some(ids[2]));

    db.set_disabled(ids[1], true, 0);
    db.set_disabled(ids[2], true, 0);
    let best = db.get_highest_priority_available().unwrap();
    assert_eq!(best.id, Some(ids[0]));

    db.set_disabled(ids[0], true, 0);
    assert!(db.get_highest_priority_available().is_none());
    assert_eq!(db.count_available(), 0);
    assert_eq!(db.count_credentials(), 3);
}

#[test]
fn client_id_exists_looks_at_stored_records() {
    let mut db = Database::new();
    let mut cred = KiroCredentials::default();
    cred.client_id = Some("abc".to_string());
    db.insert_credential(&cred).unwrap();
    assert!(db.client_id_exists("abc"));
    assert!(!db.client_id_exists("abd"));
}

#[test]
fn set_machine_id_updates_the_record() {
    let mut db = Database::new();
    let id = db.insert_credential(&KiroCredentials::default()).unwrap();
    assert!(db.set_machine_id(id, Some("b3981d12-4d61-418c-9b77-461db82a7cc4")));
    assert_eq!(
        db.get_credential(id).unwrap().machine_id,
        Some("b3981d12-4d61-418c-9b77-461db82a7cc4".to_string())
    );
    assert!(db.set_machine_id(id, None));
    assert_eq!(db.get_credential(id).unwrap().machine_id, None);
    assert!(!db.set_machine_id(id + 1, None));
}

#[test]
fn update_balance_stamps_the_record() {
    let mut db = Database::new();
    let id = db.insert_credential(&KiroCredentials::default()).unwrap();
    assert!(db.update_balance(id, Some("pro"), 5, 50, Some(1_700_003_600), 1_700_000_000));
    let got = db.get_credential(id).unwrap();
    assert_eq!(got.subscription_title, Some("pro".to_string()));
    assert_eq!(got.current_usage, 5);
    assert_eq!(got.usage_limit, 50);
    assert_eq!(got.next_reset_at, Some(1_700_003_600));
    assert_eq!(got.balance_updated_at, Some(1_700_000_000));
}

#[test]
fn ids_are_never_reused_after_delete() {
    let mut db = Database::new();
    let first = db.insert_credential(&KiroCredentials::default()).unwrap();
    let second = db.insert_credential(&KiroCredentials::default()).unwrap();
    assert!(second > first);

    // freeing both ids does not make them available again
    assert!(db.delete_credential(first));
    assert!(db.delete_credential(second));
    let third = db.insert_credential(&KiroCredentials::default()).unwrap();
    assert!(third > second);
    assert_eq!(db.count_credentials(), 1);
}

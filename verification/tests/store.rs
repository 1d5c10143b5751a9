use account_manager::error::AppError;
use account_manager::models::account::{Account, AccountStatus};
use account_manager::models::config::{GlobalTag, Settings, SortConfig, SortDirection, SortField};
use account_manager::models::log::{OperationLog, OperationStatus, OperationType};
use account_manager::repository::logs::MAX_LOGS;
use account_manager::repository::model::AppConfig;
use account_manager::repository::store::{parse_account_id, DataStore};

fn store_account(id: u128, email: &str) -> Account {
    Account {
        id,
        email: email.to_string(),
        nickname: format!("nick-{}", id),
        token: None,
        windsurf_api_key: None,
        status: AccountStatus::Active,
        group: None,
        tags: Vec::new(),
        sort_order: 0,
        created_at: id as i64,
        updated_at: 0,
    }
}

fn id_text(id: u128) -> String {
    uuid::Uuid::from_u128(id).to_string()
}

fn store_log(id: u128, kind: OperationType, status: OperationStatus) -> OperationLog {
    OperationLog::with_identity(id, id as i64 * 10, kind, status, format!("log {}", id))
}

#[test]
fn empty_store_holds_nothing() {
    let store = DataStore::empty();
    assert!(store.get_all_accounts().is_empty());
    assert!(store.get_groups().is_empty());
    assert!(store.get_tags().is_empty());
    assert!(store.get_logs(None).is_empty());
    assert_eq!(store.get_settings(), Settings::default());
}

#[test]
fn default_settings() {
    let settings = Settings::default();
    assert!(!settings.proxy_enabled);
    assert_eq!(settings.proxy_url, None);
    assert!(!settings.use_lightweight_api);
    assert_eq!(
        settings.sort_config,
        SortConfig { field: SortField::CreatedAt, direction: SortDirection::Asc }
    );
}

#[test]
fn accounts_are_added_found_and_deleted() {
    let mut store = DataStore::empty();
    assert_eq!(store.add_account(store_account(1, "a@example.com")), Ok(()));
    assert_eq!(store.add_account(store_account(2, "b@example.com")), Ok(()));
    assert_eq!(store.get_account(1), Ok(store_account(1, "a@example.com")));
    assert_eq!(store.get_account(2), Ok(store_account(2, "b@example.com")));
    assert_eq!(
        store.get_all_accounts(),
        vec![store_account(1, "a@example.com"), store_account(2, "b@example.com")]
    );
    assert_eq!(store.delete_account(1), Ok(()));
    assert_eq!(store.get_all_accounts(), vec![store_account(2, "b@example.com")]);
    assert_eq!(store.get_account(1), Err(AppError::AccountNotFound(id_text(1))));
}

#[test]
fn unknown_account_is_not_found() {
    let mut store = DataStore::empty();
    let id = 0x550e8400_e29b_41d4_a716_446655440000u128;
    let expected = AppError::AccountNotFound("550e8400-e29b-41d4-a716-446655440000".to_string());
    assert_eq!(store.get_account(id), Err(expected));
    assert_eq!(
        store.delete_account(id),
        Err(AppError::AccountNotFound("550e8400-e29b-41d4-a716-446655440000".to_string()))
    );
    assert_eq!(
        store.update_account(store_account(id, "x")),
        Err(AppError::AccountNotFound("550e8400-e29b-41d4-a716-446655440000".to_string()))
    );
    assert!(store.get_all_accounts().is_empty());
}

#[test]
fn taken_identifier_is_refused() {
    let mut store = DataStore::empty();
    store.add_account(store_account(1, "a@example.com")).unwrap();
    assert_eq!(
        store.add_account(store_account(1, "other@example.com")),
        Err(AppError::Validation(id_text(1)))
    );
    assert_eq!(store.get_all_accounts(), vec![store_account(1, "a@example.com")]);
}

#[test]
fn update_replaces_the_whole_account() {
    let mut store = DataStore::empty();
    store.add_account(store_account(1, "a@example.com")).unwrap();
    store.add_account(store_account(2, "b@example.com")).unwrap();
    let mut changed = store_account(1, "new@example.com");
    changed.token = Some("t".to_string());
    changed.tags = vec!["x".to_string()];
    assert_eq!(store.update_account(changed.clone()), Ok(()));
    assert_eq!(store.get_all_accounts(), vec![changed, store_account(2, "b@example.com")]);
}

#[test]
fn creations_and_deletions_add_up() {
    let mut store = DataStore::empty();
    for id in 1..=5u128 {
        store.add_account(store_account(id, "e")).unwrap();
    }
    assert!(store.add_account(store_account(3, "e")).is_err());
    store.delete_account(2).unwrap();
    store.delete_account(4).unwrap();
    assert!(store.delete_account(4).is_err());
    store.add_account(store_account(4, "again")).unwrap();
    let all = store.get_all_accounts();
    assert_eq!(all.len(), 4);
    let ids: Vec<u128> = all.iter().map(|a| a.id).collect();
    assert_eq!(ids, vec![1, 3, 5, 4]);
    assert_eq!(all[3], store_account(4, "again"));
}

#[test]
fn account_identifier_is_parsed() {
    assert_eq!(
        parse_account_id("550e8400-e29b-41d4-a716-446655440000"),
        Ok(0x550e8400_e29b_41d4_a716_446655440000u128)
    );
    assert_eq!(
        parse_account_id("550e8400e29b41d4a716446655440000"),
        Ok(0x550e8400_e29b_41d4_a716_446655440000u128)
    );
}

#[test]
fn malformed_identifier_is_a_validation_failure() {
    let expected = uuid::Uuid::parse_str("not-an-id").unwrap_err().to_string();
    assert_eq!(parse_account_id("not-an-id"), Err(AppError::Validation(expected)));
    assert!(matches!(parse_account_id(""), Err(AppError::Validation(_))));
}

#[test]
fn store_refuses_an_invalid_document() {
    let mut config = AppConfig::empty();
    config.accounts.push(store_account(1, "a"));
    config.accounts.push(store_account(1, "b"));
    assert!(matches!(
        DataStore::new(config),
        Err(AppError::Serialization(why)) if why == "duplicate identifier or name"
    ));
    let mut config = AppConfig::empty();
    config.groups = vec!["g".to_string(), "g".to_string()];
    assert!(DataStore::new(config).is_err());
    let mut config = AppConfig::empty();
    config.tags = vec![
        GlobalTag { name: "t".to_string(), color: "red".to_string() },
        GlobalTag { name: "t".to_string(), color: "blue".to_string() },
    ];
    assert!(DataStore::new(config).is_err());
}

#[test]
fn store_takes_a_valid_document() {
    let mut config = AppConfig::empty();
    config.accounts.push(store_account(1, "a"));
    config.accounts.push(store_account(2, "a"));
    config.groups = vec!["g".to_string(), "G".to_string()];
    let store = DataStore::new(config.clone()).unwrap();
    assert_eq!(store.export_data(), config);
    store.validity();
}

#[test]
fn settings_are_replaced_whole() {
    let mut store = DataStore::empty();
    let settings = Settings {
        proxy_enabled: true,
        proxy_url: Some("http://proxy:8080".to_string()),
        use_lightweight_api: true,
        sort_config: SortConfig { field: SortField::Email, direction: SortDirection::Desc },
    };
    let change = store.update_settings(settings.clone());
    assert!(change.proxy_changed);
    assert!(change.lightweight_api_changed);
    assert_eq!(store.get_settings(), settings);
    let again = store.update_settings(settings.clone());
    assert!(!again.proxy_changed);
    assert!(!again.lightweight_api_changed);
    let mut moved = settings.clone();
    moved.proxy_url = Some("http://other:8080".to_string());
    let change = store.update_settings(moved);
    assert!(change.proxy_changed);
    assert!(!change.lightweight_api_changed);
}

#[test]
fn sort_config_changes_alone() {
    let mut store = DataStore::empty();
    let mut settings = Settings::default();
    settings.proxy_enabled = true;
    store.update_settings(settings.clone());
    let wanted = SortConfig { field: SortField::Manual, direction: SortDirection::Desc };
    store.update_sort_config(wanted);
    assert_eq!(store.get_sort_config(), wanted);
    settings.sort_config = wanted;
    assert_eq!(store.get_settings(), settings);
}

#[test]
fn logs_are_appended_and_read_with_a_limit() {
    let mut store = DataStore::empty();
    for id in 1..=5u128 {
        store.add_log(store_log(id, OperationType::Login, OperationStatus::Success));
    }
    let all = store.get_logs(None);
    assert_eq!(all.iter().map(|l| l.id).collect::<Vec<_>>(), vec![1, 2, 3, 4, 5]);
    let recent = store.get_logs(Some(2));
    assert_eq!(recent.iter().map(|l| l.id).collect::<Vec<_>>(), vec![4, 5]);
    assert_eq!(store.get_logs(Some(0)).len(), 0);
    assert_eq!(store.get_logs(Some(5)).len(), 5);
    assert_eq!(store.get_logs(Some(99)).len(), 5);
    assert_eq!(recent[1], store_log(5, OperationType::Login, OperationStatus::Success));
    store.clear_logs();
    assert!(store.get_logs(None).is_empty());
}

#[test]
fn oldest_logs_leave_first() {
    let mut store = DataStore::empty();
    let total = MAX_LOGS as u128 + 3;
    for id in 1..=total {
        store.add_log(store_log(id, OperationType::Login, OperationStatus::Success));
    }
    let all = store.get_logs(None);
    assert_eq!(all.len(), MAX_LOGS);
    assert_eq!(all[0].id, 4);
    assert_eq!(all[MAX_LOGS - 1].id, total);
}

#[test]
fn stats_count_accounts_and_operations() {
    let mut store = DataStore::empty();
    let empty = store.get_stats();
    assert_eq!(empty.total_accounts, 0);
    assert_eq!(empty.total_operations, 0);
    assert_eq!(empty.last_operation, None);
    let mut disabled = store_account(2, "b");
    disabled.status = AccountStatus::Disabled;
    store.add_account(store_account(1, "a")).unwrap();
    store.add_account(disabled).unwrap();
    store.add_account(store_account(3, "c")).unwrap();
    store.add_group("g".to_string()).unwrap();
    store.add_log(store_log(1, OperationType::Login, OperationStatus::Success));
    store.add_log(store_log(2, OperationType::ResetCredits, OperationStatus::Success));
    store.add_log(store_log(3, OperationType::ResetCredits, OperationStatus::Failed));
    store.add_log(store_log(4, OperationType::ResetCredits, OperationStatus::Pending));
    store.add_log(store_log(5, OperationType::Login, OperationStatus::Failed));
    let stats = store.get_stats();
    assert_eq!(stats.total_accounts, 3);
    assert_eq!(stats.active_accounts, 2);
    assert_eq!(stats.total_operations, 5);
    assert_eq!(stats.successful_operations, 2);
    assert_eq!(stats.failed_operations, 2);
    assert_eq!(stats.total_resets, 3);
    assert_eq!(stats.successful_resets, 1);
    assert_eq!(stats.failed_resets, 2);
    assert_eq!(stats.last_operation, Some(50));
    assert_eq!(stats.groups, 1);
}

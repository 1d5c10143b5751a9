use account_manager::error::AppError;
use account_manager::models::log::{OperationLog, OperationStatus, OperationType};
use account_manager::models::reset_record::{usage_percent, AccountResetStats, ResetRecord};

#[test]
fn usage_percent_is_zero_without_quota() {
    assert_eq!(usage_percent(0, 0), 0);
    assert_eq!(usage_percent(50, 0), 0);
    assert_eq!(usage_percent(i32::MAX, 0), 0);
    assert_eq!(usage_percent(50, -10), 0);
}

#[test]
fn usage_percent_of_a_quarter() {
    assert_eq!(usage_percent(50, 200), 25);
}

#[test]
fn usage_percent_drops_the_fraction() {
    assert_eq!(usage_percent(1, 3), 33);
    assert_eq!(usage_percent(2, 3), 66);
    assert_eq!(usage_percent(29, 100), 29);
    assert_eq!(usage_percent(-1, 3), -33);
    assert_eq!(usage_percent(199, 200), 99);
}

#[test]
fn usage_percent_stays_in_range() {
    assert_eq!(usage_percent(i32::MAX, 1), i32::MAX);
    assert_eq!(usage_percent(i32::MIN, 1), i32::MIN);
    assert_eq!(usage_percent(300, 100), 300);
}

#[test]
fn reset_record_computes_its_usage() {
    let record = ResetRecord::new(
        "config".to_string(),
        "account".to_string(),
        "a@example.com".to_string(),
        Some("nick".to_string()),
        "master@example.com".to_string(),
        50,
        200,
        true,
    );
    assert_eq!(record.usage_percent, 25);
    assert_eq!(record.config_id, "config");
    assert_eq!(record.account_id, "account");
    assert_eq!(record.account_email, "a@example.com");
    assert_eq!(record.account_nickname, Some("nick".to_string()));
    assert_eq!(record.master_email, "master@example.com");
    assert_eq!(record.used_quota_before, 50);
    assert_eq!(record.total_quota, 200);
    assert!(record.auto_joined);
    let id = uuid::Uuid::parse_str(&record.id).unwrap();
    assert_eq!(id.get_version_num(), 4);
    assert_eq!(record.id, id.to_string());
    assert!(record.reset_at > 1_500_000_000_000);
}

#[test]
fn reset_record_with_given_identity() {
    let record = ResetRecord::with_identity(
        "id-1".to_string(),
        77,
        "c".to_string(),
        "a".to_string(),
        "e".to_string(),
        None,
        "m".to_string(),
        10,
        0,
        false,
    );
    assert_eq!(record.id, "id-1");
    assert_eq!(record.reset_at, 77);
    assert_eq!(record.usage_percent, 0);
    assert_eq!(record.account_nickname, None);
}

#[test]
fn reset_stats_start_empty_and_count_resets() {
    let mut stats = AccountResetStats::new("id".to_string(), "e".to_string(), None);
    assert_eq!(stats.reset_count, 0);
    assert_eq!(stats.total_used_quota, 0);
    assert_eq!(stats.last_reset_at, None);
    stats.add_reset(40, 1000);
    stats.add_reset(2, 2000);
    assert_eq!(stats.reset_count, 2);
    assert_eq!(stats.total_used_quota, 42);
    assert_eq!(stats.last_reset_at, Some(2000));
    assert_eq!(stats.account_id, "id");
}

#[test]
fn reset_stats_refuse_what_does_not_fit() {
    let mut stats = AccountResetStats::new("id".to_string(), "e".to_string(), None);
    stats.reset_count = i32::MAX;
    assert!(!stats.try_add_reset(1, 5));
    assert_eq!(stats.reset_count, i32::MAX);
    assert_eq!(stats.last_reset_at, None);
    stats.reset_count = 3;
    stats.total_used_quota = i64::MAX;
    assert!(!stats.try_add_reset(1, 5));
    assert_eq!(stats.total_used_quota, i64::MAX);
    assert!(stats.try_add_reset(-1, 6));
    assert_eq!(stats.total_used_quota, i64::MAX - 1);
    assert_eq!(stats.reset_count, 4);
    assert_eq!(stats.last_reset_at, Some(6));
}

#[test]
fn new_log_has_a_random_identifier_and_the_time() {
    let log = OperationLog::new(OperationType::Login, OperationStatus::Pending, "m".to_string());
    let other = OperationLog::new(OperationType::Login, OperationStatus::Pending, "m".to_string());
    assert_ne!(log.id, other.id);
    assert_eq!(uuid::Uuid::from_u128(log.id).get_version_num(), 4);
    assert_eq!(uuid::Uuid::from_u128(log.id).get_variant(), uuid::Variant::RFC4122);
    assert!(log.timestamp > 1_500_000_000_000);
    assert!(other.timestamp >= log.timestamp);
    assert_eq!(log.account_id, None);
    assert_eq!(log.account_email, None);
    assert_eq!(log.operation_type, OperationType::Login);
    assert_eq!(log.status, OperationStatus::Pending);
    assert_eq!(log.message, "m");
    assert_eq!(log.details, None);
}

#[test]
fn log_builders_set_account_and_details() {
    let details = serde_json::Value::String("detail".to_string());
    let log = OperationLog::with_identity(
        7,
        9,
        OperationType::ResetCredits,
        OperationStatus::Success,
        "done".to_string(),
    )
    .with_account(42, "a@example.com".to_string())
    .with_details(details.clone());
    assert_eq!(log.id, 7);
    assert_eq!(log.timestamp, 9);
    assert_eq!(log.account_id, Some(42));
    assert_eq!(log.account_email, Some("a@example.com".to_string()));
    assert_eq!(log.details, Some(details));
    assert_eq!(log.operation_type, OperationType::ResetCredits);
    assert_eq!(log.status, OperationStatus::Success);
    assert_eq!(log.message, "done");
    let copy = log.clone();
    assert_eq!(copy, log);
}

#[test]
fn account_info_log_names_the_outcome() {
    let ok = OperationLog::account_info(true, 5, "a@example.com".to_string());
    assert_eq!(ok.status, OperationStatus::Success);
    assert_eq!(ok.operation_type, OperationType::GetAccountInfo);
    assert_eq!(ok.message, "获取用户详细信息成功: a@example.com");
    assert_eq!(ok.account_id, Some(5));
    assert_eq!(ok.account_email, Some("a@example.com".to_string()));
    let failed = OperationLog::account_info(false, 5, "a@example.com".to_string());
    assert_eq!(failed.status, OperationStatus::Failed);
    assert_eq!(failed.message, "获取用户详细信息失败: a@example.com");
}

#[test]
fn error_messages_name_kind_and_detail() {
    assert_eq!(AppError::Serialization("x".to_string()).message(), "Serialization error: x");
    assert_eq!(AppError::Api("x".to_string()).message(), "API error: x");
    assert_eq!(AppError::AccountNotFound("x".to_string()).message(), "Account not found: x");
    assert_eq!(AppError::AuthFailed("x".to_string()).message(), "Authentication failed: x");
    assert_eq!(AppError::FileOperation("x".to_string()).message(), "File operation error: x");
    assert_eq!(AppError::NotFound("x".to_string()).message(), "Not found: x");
    assert_eq!(AppError::DuplicateName("x".to_string()).message(), "Duplicate name: x");
    assert_eq!(AppError::RetriesExhausted.message(), "重试次数已用尽");
    assert_eq!(AppError::Validation("x".to_string()).message(), "Validation error: x");
}

#[test]
fn account_info_log_at_a_given_time() {
    let log = OperationLog::account_info_at(3, 4, true, 5, "a@example.com".to_string());
    assert_eq!(log.id, 3);
    assert_eq!(log.timestamp, 4);
    assert_eq!(log.account_id, Some(5));
    assert_eq!(log.status, OperationStatus::Success);
    assert_eq!(log.message, "获取用户详细信息成功: a@example.com");
}

#[test]
fn error_detail_is_the_text_alone() {
    assert_eq!(AppError::Validation("x".to_string()).detail(), "x");
    assert_eq!(AppError::Api("y".to_string()).detail(), "y");
    assert_eq!(AppError::AccountNotFound("z".to_string()).detail(), "z");
    assert_eq!(AppError::RetriesExhausted.detail(), "重试次数已用尽");
}

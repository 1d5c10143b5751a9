use account_manager::error::AppError;
use account_manager::models::account::{Account, AccountStatus};
use account_manager::models::config::{GlobalTag, Settings, SortConfig, SortDirection, SortField};
use account_manager::models::log::{OperationLog, OperationStatus, OperationType};
use account_manager::repository::model::AppConfig;
use account_manager::repository::snapshot::{ImportResult, LoadedDocument};
use account_manager::repository::store::DataStore;

fn doc_account(id: u128, email: &str, nickname: &str) -> Account {
    Account {
        id,
        email: email.to_string(),
        nickname: nickname.to_string(),
        token: Some(format!("token-{}", id)),
        windsurf_api_key: Some(format!("key-{}", id)),
        status: AccountStatus::Active,
        group: Some("g".to_string()),
        tags: vec!["t".to_string()],
        sort_order: id as u64,
        created_at: 5,
        updated_at: 6,
    }
}

fn full_store() -> DataStore {
    let mut store = DataStore::empty();
    store.add_group("g".to_string()).unwrap();
    store.add_group("h".to_string()).unwrap();
    store.add_tag(GlobalTag { name: "t".to_string(), color: "red".to_string() }).unwrap();
    store.add_account(doc_account(1, "a@example.com", "a")).unwrap();
    store.add_account(doc_account(2, "b@example.com", "b")).unwrap();
    store.update_settings(Settings {
        proxy_enabled: true,
        proxy_url: Some("http://p".to_string()),
        use_lightweight_api: true,
        sort_config: SortConfig { field: SortField::Status, direction: SortDirection::Desc },
    });
    store.add_log(OperationLog::with_identity(
        1,
        2,
        OperationType::AddAccount,
        OperationStatus::Success,
        "added".to_string(),
    ));
    store
}

#[test]
fn export_then_import_reproduces_the_store() {
    let source = full_store();
    let exported = source.export_data();
    let mut target = DataStore::empty();
    target.add_account(doc_account(9, "z@example.com", "z")).unwrap();
    target.add_group("other".to_string()).unwrap();
    let result = target.import_data(LoadedDocument::Decoded(exported), false);
    assert_eq!(result, Ok(ImportResult { added: 2, updated: 0, skipped: 0 }));
    assert_eq!(target.get_all_accounts(), source.get_all_accounts());
    assert_eq!(target.get_groups(), source.get_groups());
    assert_eq!(target.get_tags(), source.get_tags());
    assert_eq!(target.get_settings(), source.get_settings());
    assert_eq!(target.get_logs(None), source.get_logs(None));
    assert_eq!(target.export_data(), source.export_data());
}

#[test]
fn merging_twice_adds_nothing_the_second_time() {
    let mut incoming = AppConfig::empty();
    incoming.accounts.push(doc_account(2, "b@example.com", "changed"));
    incoming.accounts.push(doc_account(3, "c@example.com", "c"));
    incoming.accounts.push(doc_account(4, "d@example.com", "d"));
    let mut store = full_store();
    let first = store.import_data(LoadedDocument::Decoded(incoming.clone()), true);
    assert_eq!(first, Ok(ImportResult { added: 2, updated: 1, skipped: 0 }));
    let once = store.get_all_accounts();
    assert_eq!(once.len(), 4);
    let second = store.import_data(LoadedDocument::Decoded(incoming), true);
    assert_eq!(second, Ok(ImportResult { added: 0, updated: 0, skipped: 3 }));
    assert_eq!(store.get_all_accounts(), once);
}

#[test]
fn merge_matches_by_identifier_then_by_email() {
    let mut store = full_store();
    let mut incoming = AppConfig::empty();
    incoming.accounts.push(doc_account(1, "moved@example.com", "by id"));
    incoming.accounts.push(doc_account(7, "b@example.com", "by email"));
    incoming.accounts.push(doc_account(8, "new@example.com", "new"));
    incoming.groups = vec!["h".to_string(), "i".to_string()];
    incoming.tags = vec![
        GlobalTag { name: "t".to_string(), color: "blue".to_string() },
        GlobalTag { name: "u".to_string(), color: "green".to_string() },
    ];
    incoming.settings = Settings::default();
    let result = store.import_data(LoadedDocument::Decoded(incoming), true);
    assert_eq!(result, Ok(ImportResult { added: 1, updated: 2, skipped: 0 }));
    let accounts = store.get_all_accounts();
    assert_eq!(accounts.len(), 3);
    assert_eq!(accounts[0], doc_account(1, "moved@example.com", "by id"));
    let mut merged = doc_account(7, "b@example.com", "by email");
    merged.id = 2;
    assert_eq!(accounts[1], merged);
    assert_eq!(accounts[2], doc_account(8, "new@example.com", "new"));
    assert_eq!(store.get_groups(), vec!["g".to_string(), "h".to_string(), "i".to_string()]);
    assert_eq!(
        store.get_tags(),
        vec![
            GlobalTag { name: "t".to_string(), color: "red".to_string() },
            GlobalTag { name: "u".to_string(), color: "green".to_string() },
        ]
    );
    assert_eq!(store.get_settings(), full_store().get_settings());
    assert_eq!(store.get_logs(None).len(), 1);
}

#[test]
fn merge_settles_duplicates_within_the_file() {
    let mut store = DataStore::empty();
    let mut incoming = AppConfig::empty();
    incoming.accounts.push(doc_account(1, "a@example.com", "first"));
    incoming.accounts.push(doc_account(1, "a@example.com", "second"));
    incoming.groups = vec!["g".to_string(), "g".to_string()];
    let result = store.import_data(LoadedDocument::Decoded(incoming), true);
    assert_eq!(result, Ok(ImportResult { added: 1, updated: 1, skipped: 0 }));
    assert_eq!(store.get_all_accounts(), vec![doc_account(1, "a@example.com", "second")]);
    assert_eq!(store.get_groups(), vec!["g".to_string()]);
}

#[test]
fn merge_document_reports_its_counts() {
    let mut store = full_store();
    let mut incoming = AppConfig::empty();
    incoming.accounts.push(doc_account(1, "a@example.com", "a"));
    let result = store.merge_document(&incoming);
    assert_eq!(result, Ok(ImportResult { added: 0, updated: 0, skipped: 1 }));
    assert_eq!(store.get_all_accounts(), full_store().get_all_accounts());
}

#[test]
fn replacing_import_refuses_an_invalid_document() {
    let mut store = full_store();
    let before = store.export_data();
    let mut incoming = AppConfig::empty();
    incoming.accounts.push(doc_account(1, "a", "a"));
    incoming.accounts.push(doc_account(1, "b", "b"));
    assert_eq!(
        store.import_data(LoadedDocument::Decoded(incoming), false),
        Err(AppError::Serialization("duplicate identifier or name".to_string()))
    );
    assert_eq!(store.export_data(), before);
}

#[test]
fn import_of_nothing_changes_nothing() {
    let mut store = full_store();
    let before = store.export_data();
    assert_eq!(
        store.import_data(LoadedDocument::Missing, true),
        Err(AppError::FileOperation("file not found".to_string()))
    );
    assert_eq!(
        store.import_data(LoadedDocument::Unreadable("bad json".to_string()), false),
        Err(AppError::Serialization("bad json".to_string()))
    );
    assert_eq!(store.export_data(), before);
}

#[test]
fn restore_replaces_the_whole_store() {
    let mut store = DataStore::empty();
    store.add_account(doc_account(9, "z", "z")).unwrap();
    let backup = full_store().export_data();
    assert_eq!(store.restore_from_backup(LoadedDocument::Decoded(backup.clone())), Ok(()));
    assert_eq!(store.export_data(), backup);
}

#[test]
fn corrupt_backup_leaves_the_store_unchanged() {
    let mut store = full_store();
    let before = store.export_data();
    assert_eq!(
        store.restore_from_backup(LoadedDocument::Unreadable("expected value at line 1".to_string())),
        Err(AppError::Serialization("expected value at line 1".to_string()))
    );
    assert_eq!(store.export_data(), before);
}

#[test]
fn missing_or_invalid_backup_leaves_the_store_unchanged() {
    let mut store = full_store();
    let before = store.export_data();
    assert_eq!(
        store.restore_from_backup(LoadedDocument::Missing),
        Err(AppError::FileOperation("file not found".to_string()))
    );
    let mut invalid = AppConfig::empty();
    invalid.groups = vec!["x".to_string(), "x".to_string()];
    assert_eq!(
        store.restore_from_backup(LoadedDocument::Decoded(invalid)),
        Err(AppError::Serialization("duplicate identifier or name".to_string()))
    );
    assert_eq!(store.export_data(), before);
}

#[test]
fn second_merge_can_add_an_account_that_was_matched_by_email() {
    let mut store = DataStore::empty();
    store.add_account(doc_account(1, "old@example.com", "stored")).unwrap();
    let mut incoming = AppConfig::empty();
    incoming.accounts.push(doc_account(9, "old@example.com", "by email"));
    incoming.accounts.push(doc_account(1, "new@example.com", "by id"));
    let first = store.import_data(LoadedDocument::Decoded(incoming.clone()), true);
    assert_eq!(first, Ok(ImportResult { added: 0, updated: 2, skipped: 0 }));
    assert_eq!(store.get_all_accounts(), vec![doc_account(1, "new@example.com", "by id")]);
    let second = store.import_data(LoadedDocument::Decoded(incoming), true);
    assert_eq!(second, Ok(ImportResult { added: 1, updated: 0, skipped: 1 }));
    assert_eq!(store.get_all_accounts().len(), 2);
}

#[test]
fn import_refuses_an_account_that_holds_a_tag_twice() {
    let mut store = full_store();
    let before = store.export_data();
    let mut twice = doc_account(5, "e@example.com", "e");
    twice.tags = vec!["t".to_string(), "u".to_string(), "t".to_string()];
    let mut incoming = AppConfig::empty();
    incoming.accounts.push(twice);
    let expected = AppError::Serialization("duplicate identifier or name".to_string());
    assert_eq!(
        store.import_data(LoadedDocument::Decoded(incoming.clone()), true),
        Err(AppError::Serialization("duplicate identifier or name".to_string()))
    );
    assert_eq!(
        store.import_data(LoadedDocument::Decoded(incoming.clone()), false),
        Err(AppError::Serialization("duplicate identifier or name".to_string()))
    );
    assert_eq!(store.merge_document(&incoming), Err(expected));
    assert_eq!(store.export_data(), before);
    assert!(DataStore::new(incoming).is_err());
}
